//! Enumerates the pairs `(i, j)` with `i < j < count`, in lexicographic
//! order.
use vstd::prelude::*;

verus! {

pub struct CrossIndexIterator {
    count: usize,
    i: usize,
    j: usize,
}

/// The position after `(i, j)`: the next column, or the start of the next
/// row past the diagonal.
pub open spec fn advance(count: int, i: int, j: int) -> (int, int) {
    if j + 1 == count {
        (i + 1, i + 1)
    } else {
        (i, j + 1)
    }
}

impl CrossIndexIterator {
    pub closed spec fn bound(&self) -> int {
        self.count as int
    }

    /// The current position.
    pub closed spec fn pos(&self) -> (int, int) {
        (self.i as int, self.j as int)
    }

    pub closed spec fn wf(&self) -> bool {
        &&& self.count < usize::MAX
        &&& self.i <= self.j <= self.count + 1
        &&& self.i <= self.count
    }

    pub fn new(count: usize) -> (r: Self)
        requires
            count < usize::MAX,
        ensures
            r.wf(),
            r.bound() == count,
            r.pos() == (0int, 0int),
    {
        Self { count, i: 0, j: 0 }
    }

    fn update(&mut self)
        requires
            old(self).wf(),
            old(self).pos().1 <= old(self).bound(),
        ensures
            final(self).wf(),
            final(self).bound() == old(self).bound(),
            final(self).pos() == advance(old(self).bound(), old(self).pos().0, old(self).pos().1),
    {
        self.j = self.j + 1;
        if self.j == self.count {
            self.i = self.i + 1;
            self.j = self.i;
        }
    }

    /// The next pair `(i, j)` with `i < j < count`, or nothing once all
    /// are given.
    pub fn next(&mut self) -> (r: Option<(usize, usize)>)
        requires
            old(self).wf(),
        ensures
            final(self).wf(),
            final(self).bound() == old(self).bound(),
            ({
                let c = old(self).bound();
                let (i0, j0) = old(self).pos();
                let p = if i0 == j0 && j0 <= c {
                    advance(c, i0, j0)
                } else {
                    (i0, j0)
                };
                &&& (p.0 < c && p.1 < c) ==> {
                    &&& r == Some((p.0 as usize, p.1 as usize))
                    &&& final(self).pos() == advance(c, p.0, p.1)
                }
                &&& !(p.0 < c && p.1 < c) ==> r is None && final(self).pos() == p
            }),
    {
        if self.i == self.j && self.j <= self.count {
            self.update();
        }
        if self.i < self.count && self.j < self.count {
            let output = (self.i, self.j);
            self.update();
            Some(output)
        } else {
            None
        }
    }
}

} // verus!
