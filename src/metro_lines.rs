//! The metro lines of a network, as the ordered stations of each line, and
//! the questions asked of them: whether two stations share a line, and which
//! stations are interchanges.
use crate::cross_index_iterator::CrossIndexIterator;
use crate::matrix::IndexMatrix;
use crate::path_iterator::{path, path_to_vector, valid_next};
use std::collections::HashSet;
use vstd::prelude::*;

verus! {

broadcast use vstd::std_specs::hash::group_hash_axioms;

/// Some line holds both `a` and `b`.
pub open spec fn same_line(lines: Seq<Seq<usize>>, a: usize, b: usize) -> bool {
    exists|k: int| 0 <= k < lines.len() && #[trigger] lines[k].contains(a) && lines[k].contains(b)
}

/// A line other than line `k` holds `s`.
pub open spec fn on_other_line(lines: Seq<Seq<usize>>, k: int, s: usize) -> bool {
    exists|b: int| 0 <= b < lines.len() && b != k && #[trigger] lines[b].contains(s)
}

/// `s` lies on two different lines.
pub open spec fn is_interchange(lines: Seq<Seq<usize>>, s: usize) -> bool {
    exists|a: int| 0 <= a < lines.len() && #[trigger] lines[a].contains(s) && on_other_line(lines, a, s)
}

/// The stations of each line, as sequences.
pub open spec fn line_seqs(lines: Seq<Vec<usize>>) -> Seq<Seq<usize>> {
    lines.map_values(|l: Vec<usize>| l@)
}

/// The metro lines, each the ordered stations from its first terminus to its
/// second, with the terminus pairs they were built from.
pub struct MetroLines {
    lines: Vec<Vec<usize>>,
    terminus: Vec<(usize, usize)>,
}

impl View for MetroLines {
    type V = (Seq<Seq<usize>>, Seq<(usize, usize)>);

    closed spec fn view(&self) -> Self::V {
        (line_seqs(self.lines@), self.terminus@)
    }
}

/// Membership of `s` in `line`.
pub(crate) fn line_contains(line: &Vec<usize>, s: usize) -> (r: bool)
    ensures
        r == line@.contains(s),
{
    let mut i: usize = 0;
    while i < line.len()
        invariant
            i <= line.len(),
            forall|k: int| 0 <= k < i ==> line@[k] != s,
        decreases line.len() - i,
    {
        if line[i] == s {
            assert(line@[i as int] == s);
            return true;
        }
        i = i + 1;
    }
    false
}

/// A copy of every line.
fn copy_lines(lines: &Vec<Vec<usize>>) -> (r: Vec<Vec<usize>>)
    ensures
        line_seqs(r@) == line_seqs(lines@),
{
    let mut out: Vec<Vec<usize>> = Vec::new();
    let mut k: usize = 0;
    while k < lines.len()
        invariant
            k <= lines.len(),
            out@.len() == k,
            forall|q: int| 0 <= q < k ==> (#[trigger] out@[q])@ == lines@[q]@,
        decreases lines.len() - k,
    {
        let line = lines[k].clone();
        assert(line@ =~= lines@[k as int]@);
        out.push(line);
        k = k + 1;
    }
    assert(line_seqs(out@) =~= line_seqs(lines@));
    out
}

/// A copy of a list of terminus pairs.
fn copy_pairs(pairs: &Vec<(usize, usize)>) -> (r: Vec<(usize, usize)>)
    ensures
        r@ == pairs@,
{
    let mut out: Vec<(usize, usize)> = Vec::new();
    let mut k: usize = 0;
    while k < pairs.len()
        invariant
            k <= pairs.len(),
            out@ == pairs@.subrange(0, k as int),
        decreases pairs.len() - k,
    {
        out.push(pairs[k]);
        k = k + 1;
        assert(out@ =~= pairs@.subrange(0, k as int));
    }
    assert(out@ =~= pairs@);
    out
}

impl MetroLines {
    /// Each line is the path between its two terminus stations in the
    /// successor matrix `next`.
    pub fn from_successor_matrix(next: &IndexMatrix, terminus: &[(usize, usize)]) -> (r: Self)
        requires
            valid_next(next@),
            forall|k: int|
                0 <= k < terminus@.len() ==> (#[trigger] terminus@[k]).0 < next@.len()
                    && terminus@[k].1 < next@.len(),
        ensures
            r@.1 == terminus@,
            r@.0.len() == terminus@.len(),
            forall|k: int|
                0 <= k < terminus@.len() ==> #[trigger] r@.0[k] == path(
                    next@,
                    terminus@[k].0,
                    terminus@[k].1,
                ),
    {
        let mut lines: Vec<Vec<usize>> = Vec::new();
        let mut term: Vec<(usize, usize)> = Vec::new();
        let mut k: usize = 0;
        while k < terminus.len()
            invariant
                valid_next(next@),
                forall|q: int|
                    0 <= q < terminus@.len() ==> (#[trigger] terminus@[q]).0 < next@.len()
                        && terminus@[q].1 < next@.len(),
                k <= terminus@.len(),
                lines@.len() == k,
                term@ == terminus@.subrange(0, k as int),
                forall|q: int|
                    0 <= q < k ==> (#[trigger] lines@[q])@ == path(
                        next@,
                        terminus@[q].0,
                        terminus@[q].1,
                    ),
            decreases terminus@.len() - k,
        {
            let (t1, t2) = terminus[k];
            lines.push(path_to_vector(next, t1, t2));
            term.push((t1, t2));
            k = k + 1;
            assert(term@ =~= terminus@.subrange(0, k as int));
        }
        assert(term@ =~= terminus@);
        Self { lines, terminus: term }
    }

    /// Lines given station by station, for networks whose lines are not
    /// shortest paths.
    pub fn from_given_lines(lines: Vec<Vec<usize>>, terminus: Vec<(usize, usize)>) -> (r: Self)
        ensures
            r@.0 == line_seqs(lines@),
            r@.1 == terminus@,
    {
        Self { lines, terminus }
    }

    /// The stations of every line, in the order of the terminus pairs.
    pub fn line_iter(&self) -> (r: &Vec<Vec<usize>>)
        ensures
            line_seqs(r@) == self@.0,
    {
        &self.lines
    }

    /// The terminus pairs the lines were built from.
    pub fn get_terminus(&self) -> (r: &Vec<(usize, usize)>)
        ensures
            r@ == self@.1,
    {
        &self.terminus
    }
}

/// The lines of a network as station sets, with their terminus pairs, for
/// the questions that routing asks.
pub struct MetroLinesSet {
    terminus: Vec<(usize, usize)>,
    lines: Vec<Vec<usize>>,
}

impl View for MetroLinesSet {
    type V = (Seq<Seq<usize>>, Seq<(usize, usize)>);

    closed spec fn view(&self) -> Self::V {
        (line_seqs(self.lines@), self.terminus@)
    }
}

impl MetroLinesSet {
    pub fn from(metro_lines: &MetroLines) -> (r: Self)
        ensures
            r@ == metro_lines@,
    {
        let lines = copy_lines(&metro_lines.lines);
        let terminus = copy_pairs(&metro_lines.terminus);
        Self { lines, terminus }
    }

    /// The stations of every line, in the order of the terminus pairs.
    pub fn line_iterator(&self) -> (r: &Vec<Vec<usize>>)
        ensures
            line_seqs(r@) == self@.0,
    {
        &self.lines
    }

    /// The terminus pairs of the lines.
    pub fn get_terminus(&self) -> (r: &Vec<(usize, usize)>)
        ensures
            r@ == self@.1,
    {
        &self.terminus
    }

    /// The pairs of distinct lines, each pair once.
    pub fn cross_line_iter(&self) -> (r: CrossLineIterator)
        requires
            self@.0.len() < usize::MAX,
        ensures
            r.wf(),
            r.count() == self@.0.len(),
            r.position() == (0int, 0int),
    {
        CrossLineIterator::new(self.lines.len())
    }

    /// Whether some line holds both `s1` and `s2`.
    pub fn is_same_line(&self, s1: usize, s2: usize) -> (r: bool)
        ensures
            r == same_line(self@.0, s1, s2),
    {
        let ghost ls = self@.0;
        let mut k: usize = 0;
        while k < self.lines.len()
            invariant
                ls == line_seqs(self.lines@),
                k <= self.lines.len(),
                forall|q: int| 0 <= q < k ==> !(#[trigger] ls[q].contains(s1) && ls[q].contains(s2)),
            decreases self.lines.len() - k,
        {
            if line_contains(&self.lines[k], s1) && line_contains(&self.lines[k], s2) {
                assert(ls[k as int].contains(s1) && ls[k as int].contains(s2));
                return true;
            }
            k = k + 1;
        }
        false
    }

    /// Whether a line other than line `a` holds `s`.
    fn on_other_line(&self, a: usize, s: usize) -> (r: bool)
        ensures
            r == on_other_line(self@.0, a as int, s),
    {
        let ghost ls = self@.0;
        let mut b: usize = 0;
        while b < self.lines.len()
            invariant
                ls == line_seqs(self.lines@),
                b <= self.lines.len(),
                forall|q: int| 0 <= q < b && q != a ==> !(#[trigger] ls[q].contains(s)),
            decreases self.lines.len() - b,
        {
            if b != a && line_contains(&self.lines[b], s) {
                assert(ls[b as int].contains(s));
                return true;
            }
            b = b + 1;
        }
        false
    }

    /// The stations that lie on two different lines.
    pub fn find_interchanges(&self) -> (r: HashSet<usize>)
        ensures
            forall|s: usize| r@.contains(s) <==> is_interchange(self@.0, s),
    {
        let ghost ls = self@.0;
        let mut out: HashSet<usize> = HashSet::new();
        let mut a: usize = 0;
        while a < self.lines.len()
            invariant
                ls == line_seqs(self.lines@),
                a <= self.lines.len(),
                forall|s: usize|
                    out@.contains(s) <==> exists|q: int|
                        0 <= q < a && #[trigger] ls[q].contains(s) && on_other_line(ls, q, s),
            decreases self.lines.len() - a,
        {
            let line = &self.lines[a];
            let mut m: usize = 0;
            while m < line.len()
                invariant
                    ls == line_seqs(self.lines@),
                    a < self.lines.len(),
                    line == &self.lines[a as int],
                    m <= line.len(),
                    forall|s: usize|
                        out@.contains(s) <==> (exists|q: int|
                            0 <= q < a && #[trigger] ls[q].contains(s) && on_other_line(ls, q, s))
                            || ((exists|w: int| 0 <= w < m && #[trigger] line@[w] == s)
                            && on_other_line(ls, a as int, s)),
                decreases line.len() - m,
            {
                let s = line[m];
                if self.on_other_line(a, s) {
                    out.insert(s);
                }
                m = m + 1;
                assert(line@[m - 1] == s);
            }
            assert(ls[a as int] == line@);
            assert forall|x: usize| out@.contains(x) <==> exists|q: int|
                0 <= q < a + 1 && #[trigger] ls[q].contains(x) && on_other_line(ls, q, x) by {
                if exists|w: int| 0 <= w < line@.len() && #[trigger] line@[w] == x {
                    let w = choose|w: int| 0 <= w < line@.len() && #[trigger] line@[w] == x;
                    assert(ls[a as int].contains(x));
                }
                if ls[a as int].contains(x) {
                    let w = choose|w: int| 0 <= w < line@.len() && line@[w] == x;
                    assert(line@[w] == x);
                }
                if exists|q: int| 0 <= q < a + 1 && #[trigger] ls[q].contains(x) && on_other_line(ls, q, x) {
                    let q = choose|q: int| 0 <= q < a + 1 && #[trigger] ls[q].contains(x) && on_other_line(ls, q, x);
                    if q == a {
                        let w = choose|w: int| 0 <= w < line@.len() && line@[w] == x;
                        assert(line@[w] == x);
                    }
                }
            }
            a = a + 1;
        }
        out
    }
}

/// Gives the pairs `(a, b)` of line indices with `a < b`, each once, in
/// lexicographic order.
pub struct CrossLineIterator {
    iterator: CrossIndexIterator,
}

impl CrossLineIterator {
    pub closed spec fn wf(&self) -> bool {
        self.iterator.wf()
    }

    pub closed spec fn count(&self) -> int {
        self.iterator.bound()
    }

    pub closed spec fn position(&self) -> (int, int) {
        self.iterator.pos()
    }

    pub fn new(count: usize) -> (r: Self)
        requires
            count < usize::MAX,
        ensures
            r.wf(),
            r.count() == count,
            r.position() == (0int, 0int),
    {
        Self { iterator: CrossIndexIterator::new(count) }
    }

    /// The next pair of line indices, or nothing once all are given.
    pub fn next(&mut self) -> (r: Option<(usize, usize)>)
        requires
            old(self).wf(),
        ensures
            final(self).wf(),
            final(self).count() == old(self).count(),
            ({
                let c = old(self).count();
                let (i0, j0) = old(self).position();
                let p = if i0 == j0 && j0 <= c {
                    crate::cross_index_iterator::advance(c, i0, j0)
                } else {
                    (i0, j0)
                };
                &&& (p.0 < c && p.1 < c) ==> {
                    &&& r == Some((p.0 as usize, p.1 as usize))
                    &&& final(self).position() == crate::cross_index_iterator::advance(c, p.0, p.1)
                }
                &&& !(p.0 < c && p.1 < c) ==> r is None && final(self).position() == p
            }),
    {
        self.iterator.next()
    }
}

} // verus!
