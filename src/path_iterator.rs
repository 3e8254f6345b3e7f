//! Walking a successor matrix: from a node toward a target, each step goes
//! to the successor recorded for that target.
use crate::matrix::{IndexMatrix, is_square};
use std::collections::HashSet;
use vstd::prelude::*;

verus! {

broadcast use vstd::std_specs::hash::group_hash_axioms;

/// `next` is an `n` by `n` successor matrix whose entries are nodes.
pub open spec fn valid_next(next: Seq<Seq<usize>>) -> bool {
    &&& is_square(next, next.len())
    &&& forall|i: int, j: int|
        0 <= i < next.len() && 0 <= j < next.len() ==> #[trigger] next[i][j] < next.len()
}

/// The nodes met walking from `cur` toward `d`, taking at most `fuel` steps;
/// `d` closes the walk when it is reached, and nothing is kept of a walk
/// that runs out of steps before it.
pub open spec fn walk(next: Seq<Seq<usize>>, cur: usize, d: usize, fuel: nat) -> Seq<usize>
    decreases fuel,
{
    if cur == d {
        seq![d]
    } else if fuel == 0 {
        seq![]
    } else {
        seq![cur] + walk(next, next[cur as int][d as int], d, (fuel - 1) as nat)
    }
}

/// The path from `s` to `d`, both included: a walk of at most as many steps
/// as there are nodes. It is empty when `s == d`.
pub open spec fn path(next: Seq<Seq<usize>>, s: usize, d: usize) -> Seq<usize> {
    if s == d {
        seq![]
    } else {
        walk(next, s, d, next.len())
    }
}

/// Iterates over the nodes of the path from one node to another in a
/// successor matrix: the start first, the target last.
pub struct PathIterator<'a> {
    curr: usize,
    end: usize,
    last: Option<usize>,
    next_mat: &'a IndexMatrix,
}

impl<'a> PathIterator<'a> {
    pub closed spec fn current(&self) -> usize {
        self.curr
    }

    pub closed spec fn target(&self) -> usize {
        self.end
    }

    pub closed spec fn pending(&self) -> Option<usize> {
        self.last
    }

    pub closed spec fn matrix(&self) -> Seq<Seq<usize>> {
        self.next_mat@
    }

    pub fn new(curr: usize, end: usize, next_mat: &'a IndexMatrix) -> (r: Self)
        ensures
            r.current() == curr,
            r.target() == end,
            r.pending() == None::<usize>,
            r.matrix() == next_mat@,
    {
        Self { curr, end, next_mat, last: None }
    }

    /// The next node of the path: the current node while the target is not
    /// reached, then the target once, then nothing.
    pub fn next(&mut self) -> (r: Option<usize>)
        requires
            valid_next(old(self).matrix()),
            old(self).current() < old(self).matrix().len(),
            old(self).target() < old(self).matrix().len(),
        ensures
            final(self).target() == old(self).target(),
            final(self).matrix() == old(self).matrix(),
            old(self).current() != old(self).target() ==> {
                &&& r == Some(old(self).current())
                &&& final(self).current() == old(self).matrix()[old(self).current() as int][old(
                    self,
                ).target() as int]
                &&& final(self).pending() == Some(final(self).current())
            },
            old(self).current() == old(self).target() ==> {
                &&& r == old(self).pending()
                &&& final(self).current() == old(self).current()
                &&& final(self).pending() == None::<usize>
            },
    {
        if self.curr != self.end {
            let tmp = self.curr;
            self.curr = self.next_mat.get(self.curr, self.end);
            self.last = Some(self.curr);
            Some(tmp)
        } else {
            let r = self.last;
            self.last = None;
            r
        }
    }

    /// The whole path, start and target included (empty when they are the
    /// same node).
    pub fn to_vector(self) -> (r: Vec<usize>)
        requires
            valid_next(self.matrix()),
            self.current() < self.matrix().len(),
            self.target() < self.matrix().len(),
        ensures
            r@ == path(self.matrix(), self.current(), self.target()),
    {
        path_to_vector(self.next_mat, self.curr, self.end)
    }
}

/// The path from `s` to `d` in `next`, as a vector.
pub fn path_to_vector(next: &IndexMatrix, s: usize, d: usize) -> (r: Vec<usize>)
    requires
        valid_next(next@),
        s < next@.len(),
        d < next@.len(),
    ensures
        r@ == path(next@, s, d),
{
    let mut out: Vec<usize> = Vec::new();
    if s == d {
        return out;
    }
    let n = next.nrows();
    let mut cur = s;
    let mut fuel = n;
    while cur != d && fuel > 0
        invariant
            valid_next(next@),
            n == next@.len(),
            cur < n,
            d < n,
            fuel <= n,
            out@ + walk(next@, cur, d, fuel as nat) == walk(next@, s, d, n as nat),
        decreases fuel,
    {
        let ghost old_out = out@;
        let ghost old_cur = cur;
        out.push(cur);
        cur = next.get(cur, d);
        fuel = fuel - 1;
        assert(out@ + walk(next@, cur, d, fuel as nat) =~= old_out + walk(next@, old_cur, d, (fuel + 1) as nat));
    }
    if cur == d {
        out.push(d);
    }
    assert(out@ =~= walk(next@, s, d, n as nat));
    out
}

/// The nodes of a sequence, as a set.
fn set_of(v: &Vec<usize>) -> (r: HashSet<usize>)
    ensures
        r@ == v@.to_set(),
{
    let mut out: HashSet<usize> = HashSet::new();
    let mut k: usize = 0;
    while k < v.len()
        invariant
            k <= v@.len(),
            forall|x: usize| out@.contains(x) <==> exists|w: int| 0 <= w < k && #[trigger] v@[w] == x,
        decreases v.len() - k,
    {
        out.insert(v[k]);
        proof {
            assert forall|x: usize| out@.contains(x) <==> exists|w: int| 0 <= w < k + 1 && #[trigger] v@[w] == x by {
                if x == v@[k as int] {
                    assert(v@[k as int] == x);
                }
            }
        }
        k = k + 1;
    }
    assert(out@ =~= v@.to_set());
    out
}

impl<'a> PathIterator<'a> {
    /// The nodes of the whole path, as a set.
    pub fn to_set(self) -> (r: HashSet<usize>)
        requires
            valid_next(self.matrix()),
            self.current() < self.matrix().len(),
            self.target() < self.matrix().len(),
        ensures
            r@ == path(self.matrix(), self.current(), self.target()).to_set(),
    {
        let v = self.to_vector();
        set_of(&v)
    }
}

} // verus!
