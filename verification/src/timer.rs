//! A general purpose timer for measuring execution time or checking whether
//! a certain span has passed. Spans are whole nanosecond counts.

use crate::clock::{instant_now, nanos_between};
use vstd::prelude::*;

verus! {

/// A timer: a start instant, an optional target span after which it counts
/// as signaled, and the measured span if it has been stopped.
pub struct Timer {
    started: std::time::Instant,
    pub target: Option<u64>,
    stopped: Option<u64>,
}

impl Timer {
    pub closed spec fn stopped_spec(&self) -> Option<u64> {
        self.stopped
    }

    pub closed spec fn target_spec(&self) -> Option<u64> {
        self.target
    }

    /// Starts a new timer with no target.
    pub fn start() -> (r: Timer)
        ensures
            r.target_spec() is None,
            r.stopped_spec() is None,
    {
        Timer { started: instant_now(), target: None, stopped: None }
    }

    /// Creates a new timer which counts as signaled once the given span, in
    /// nanoseconds, has passed.
    pub fn with_target(duration: u64) -> (r: Timer)
        ensures
            r.target_spec() == Some(duration),
            r.stopped_spec() is None,
    {
        Timer { started: instant_now(), target: Some(duration), stopped: None }
    }

    /// The current span of the timer in nanoseconds. On a stopped timer,
    /// the span at which it was stopped; on a running one, a fresh clock
    /// measurement, of which nothing more can be promised.
    pub fn duration(&self) -> (r: u64)
        ensures
            self.stopped_spec() matches Some(d) ==> r == d,
    {
        match self.stopped {
            None => nanos_between(&instant_now(), &self.started),
            Some(duration) => duration,
        }
    }

    /// Stops the timer and returns the measured span.
    pub fn stop(&mut self) -> (r: u64)
        ensures
            final(self).stopped_spec() == Some(r),
            final(self).target_spec() == old(self).target_spec(),
    {
        let d = nanos_between(&instant_now(), &self.started);
        self.stopped = Some(d);
        d
    }

    /// Restarts the timer from now: it runs again and will signal again
    /// after its target span passes.
    pub fn restart(&mut self)
        ensures
            final(self).stopped_spec() is None,
            final(self).target_spec() == old(self).target_spec(),
    {
        self.started = instant_now();
        self.stopped = None;
    }

    pub fn running(&self) -> (r: bool)
        ensures
            r == (self.stopped_spec() is None),
    {
        self.stopped.is_none()
    }

    pub fn stopped(&self) -> (r: bool)
        ensures
            r == (self.stopped_spec() is Some),
    {
        self.stopped.is_some()
    }

    /// Whether the timer's span has passed its target, if one is set. A
    /// timer without a target never signals.
    pub fn signaled(&self) -> (r: bool)
        ensures
            self.target_spec() is None ==> !r,
            self.target_spec() is Some && self.stopped_spec() is Some ==> r == (
            self.stopped_spec()->Some_0 >= self.target_spec()->Some_0),
    {
        match self.target {
            Some(target) => self.duration() >= target,
            None => false,
        }
    }

    /// The span left until the target, in nanoseconds: `None` when no
    /// target is set, when the target has passed, or when the timer is
    /// stopped. Whatever the clock reads, a returned span never exceeds the
    /// target itself.
    pub fn remaining(&self) -> (r: Option<u64>)
        ensures
            self.stopped_spec() is Some ==> r is None,
            self.target_spec() is None ==> r is None,
            r matches Some(x) ==> (self.target_spec() matches Some(t) && x <= t),
    {
        if self.stopped.is_some() {
            return None;
        }
        match self.target {
            Some(target) => {
                let elapsed = nanos_between(&instant_now(), &self.started);
                if elapsed < target {
                    Some(target - elapsed)
                } else {
                    None
                }
            },
            None => None,
        }
    }

    /// The span left until the target in whole milliseconds, under the same
    /// conditions as `remaining`.
    pub fn remaining_ms(&self) -> (r: Option<usize>)
        ensures
            self.stopped_spec() is Some ==> r is None,
            self.target_spec() is None ==> r is None,
            r matches Some(x) ==> (self.target_spec() matches Some(t) && x <= t / 1_000_000),
    {
        match self.remaining() {
            Some(d) => {
                let ms = d / 1_000_000;
                if ms > usize::MAX as u64 {
                    Some(usize::MAX)
                } else {
                    Some(ms as usize)
                }
            },
            None => None,
        }
    }

    /// The span left until the target in whole microseconds, under the same
    /// conditions as `remaining`.
    pub fn remaining_us(&self) -> (r: Option<usize>)
        ensures
            self.stopped_spec() is Some ==> r is None,
            self.target_spec() is None ==> r is None,
            r matches Some(x) ==> (self.target_spec() matches Some(t) && x <= t / 1_000),
    {
        match self.remaining() {
            Some(d) => {
                let us = d / 1_000;
                if us > usize::MAX as u64 {
                    Some(usize::MAX)
                } else {
                    Some(us as usize)
                }
            },
            None => None,
        }
    }
}

} // verus!
