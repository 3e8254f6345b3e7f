//! One-shot and cyclic step counters.
use vstd::prelude::*;

verus! {

/// A one-shot counter: it counts steps up to `start`, then stays done.
#[derive(Debug, PartialEq, Eq)]
pub struct Counter {
    start: usize,
    current: usize,
}

impl Counter {
    /// The number of steps the counter waits for.
    pub closed spec fn target(&self) -> nat {
        self.start as nat
    }

    /// The number of steps counted so far.
    pub closed spec fn count_so_far(&self) -> nat {
        self.current as nat
    }

    /// A counter has reached its target.
    pub open spec fn done(&self) -> bool {
        self.count_so_far() >= self.target()
    }

    pub fn new(start: usize) -> (r: Self)
        ensures
            r.target() == start,
            r.count_so_far() == 0,
    {
        Self { start, current: 0 }
    }

    /// Count one step. Returns `true` when the counter was already done,
    /// in which case nothing changes.
    pub fn step(&mut self) -> (r: bool)
        ensures
            r == old(self).done(),
            final(self).target() == old(self).target(),
            final(self).count_so_far() == if r {
                old(self).count_so_far()
            } else {
                old(self).count_so_far() + 1
            },
    {
        if self.is_done() {
            true
        } else {
            self.current = self.current + 1;
            false
        }
    }

    pub fn is_done(&self) -> (r: bool)
        ensures
            r == self.done(),
    {
        self.current >= self.start
    }

    /// The number of steps counted so far.
    pub fn get_current(&self) -> (r: usize)
        ensures
            r == self.count_so_far(),
    {
        self.current
    }

    pub fn reset(&mut self)
        ensures
            final(self).target() == old(self).target(),
            final(self).count_so_far() == 0,
    {
        self.current = 0;
    }
}


/// A counter that signals once every `target + 1` counts: when it is done,
/// the next count signals and starts over.
#[derive(Debug, PartialEq, Eq)]
pub struct CyclicCounter {
    counter: Counter,
}

impl CyclicCounter {
    pub closed spec fn target(&self) -> nat {
        self.counter.target()
    }

    pub closed spec fn count_so_far(&self) -> nat {
        self.counter.count_so_far()
    }

    pub open spec fn done(&self) -> bool {
        self.count_so_far() >= self.target()
    }

    pub fn new(target: usize) -> (r: Self)
        ensures
            r.target() == target,
            r.count_so_far() == 0,
    {
        Self { counter: Counter::new(target) }
    }

    /// Count one step. Returns `true` (and starts over from zero) when the
    /// counter was done before this count.
    pub fn count(&mut self) -> (r: bool)
        ensures
            r == old(self).done(),
            final(self).target() == old(self).target(),
            final(self).count_so_far() == if r {
                0
            } else {
                old(self).count_so_far() + 1
            },
    {
        let stat = self.counter.step();
        if stat {
            self.counter.reset();
        }
        stat
    }

    pub fn is_done(&self) -> (r: bool)
        ensures
            r == self.done(),
    {
        self.counter.is_done()
    }
}


} // verus!
