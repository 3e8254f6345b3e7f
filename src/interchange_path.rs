//! The interchange-path matrix: for a trip from `s` to `d`, the station where
//! the traveller leaves the current line, which is `d` itself when one line
//! holds both.
use crate::matrix::{IndexMatrix, is_square};
use crate::metro_lines::{MetroLinesSet, is_interchange, same_line};
use crate::path_iterator::valid_next;
use rayon::iter::{IndexedParallelIterator, IntoParallelIterator, ParallelIterator};
use std::collections::HashSet;
use vstd::prelude::*;

verus! {

broadcast use vstd::std_specs::hash::group_hash_axioms;

/// The interchanges of a set of lines.
pub open spec fn interchange_set(lines: Seq<Seq<usize>>) -> Set<usize> {
    Set::new(|s: usize| is_interchange(lines, s))
}

/// The first station of `inter` met walking from `x` toward `d` with at
/// most `fuel` steps; `d` when the walk meets none.
pub open spec fn walk_interchange(
    next: Seq<Seq<usize>>,
    inter: Set<usize>,
    x: usize,
    d: usize,
    fuel: nat,
) -> usize
    decreases fuel,
{
    if x == d {
        d
    } else if fuel == 0 {
        d
    } else if inter.contains(x) {
        x
    } else {
        walk_interchange(next, inter, next[x as int][d as int], d, (fuel - 1) as nat)
    }
}

/// The walk from `x` toward `d` meets a station of `inter`, or `d`, within
/// `fuel` steps.
pub open spec fn walk_resolves(
    next: Seq<Seq<usize>>,
    inter: Set<usize>,
    x: usize,
    d: usize,
    fuel: nat,
) -> bool
    decreases fuel,
{
    if x == d {
        true
    } else if fuel == 0 {
        false
    } else if inter.contains(x) {
        true
    } else {
        walk_resolves(next, inter, next[x as int][d as int], d, (fuel - 1) as nat)
    }
}

/// Entry `(s, d)` of the interchange-path matrix.
pub open spec fn interchange_entry(next: Seq<Seq<usize>>, lines: Seq<Seq<usize>>, s: usize, d: usize) -> usize {
    if same_line(lines, s, d) {
        d
    } else {
        walk_interchange(next, interchange_set(lines), s, d, next.len())
    }
}

/// `m` is the interchange-path matrix of `next` and `lines`.
pub open spec fn is_interchange_matrix(m: Seq<Seq<usize>>, next: Seq<Seq<usize>>, lines: Seq<Seq<usize>>) -> bool {
    &&& is_square(m, next.len())
    &&& forall|s: int, d: int|
        0 <= s < next.len() && 0 <= d < next.len() ==> #[trigger] m[s][d] == interchange_entry(
            next,
            lines,
            s as usize,
            d as usize,
        )
}

/// A walk that resolves within some steps gives the same station with any
/// more steps.
pub proof fn lemma_resolved_walk_stable(
    next: Seq<Seq<usize>>,
    inter: Set<usize>,
    x: usize,
    d: usize,
    k: nat,
    k2: nat,
)
    requires
        walk_resolves(next, inter, x, d, k),
        k <= k2,
    ensures
        walk_resolves(next, inter, x, d, k2),
        walk_interchange(next, inter, x, d, k2) == walk_interchange(next, inter, x, d, k),
    decreases k,
{
    if x != d && k > 0 && !inter.contains(x) {
        lemma_resolved_walk_stable(
            next,
            inter,
            next[x as int][d as int],
            d,
            (k - 1) as nat,
            (k2 - 1) as nat,
        );
    }
}

/// The first interchange on the path from `start` to `end`, or `end` when
/// the path meets none.
pub fn take_next(start: usize, end: usize, next: &IndexMatrix, interchanges: &HashSet<usize>) -> (r: usize)
    requires
        valid_next(next@),
        start < next@.len(),
        end < next@.len(),
    ensures
        r == walk_interchange(next@, interchanges@, start, end, next@.len()),
{
    let n = next.nrows();
    let mut cur = start;
    let mut fuel = n;
    while cur != end && fuel > 0
        invariant
            valid_next(next@),
            n == next@.len(),
            cur < n,
            end < n,
            fuel <= n,
            walk_interchange(next@, interchanges@, cur, end, fuel as nat) == walk_interchange(
                next@,
                interchanges@,
                start,
                end,
                n as nat,
            ),
        decreases fuel,
    {
        if interchanges.contains(&cur) {
            return cur;
        }
        cur = next.get(cur, end);
        fuel = fuel - 1;
    }
    end
}

/// Entry `(s, d)` of the interchange-path matrix, given the interchanges.
pub fn interchange_cell(
    s: usize,
    d: usize,
    next: &IndexMatrix,
    lines: &MetroLinesSet,
    interchanges: &HashSet<usize>,
) -> (r: usize)
    requires
        valid_next(next@),
        s < next@.len(),
        d < next@.len(),
        interchanges@ == interchange_set(lines@.0),
    ensures
        r == interchange_entry(next@, lines@.0, s, d),
{
    if lines.is_same_line(s, d) {
        d
    } else {
        take_next(s, d, next, interchanges)
    }
}

/// The interchanges of `lines`, as a set.
fn interchanges_of(lines: &MetroLinesSet) -> (r: HashSet<usize>)
    ensures
        r@ == interchange_set(lines@.0),
{
    let r = lines.find_interchanges();
    assert(r@ =~= interchange_set(lines@.0));
    r
}

/// Builds the interchange-path matrix pair by pair.
pub fn build_interchange_path_matrix(next: &IndexMatrix, lines: &MetroLinesSet) -> (r: IndexMatrix)
    requires
        valid_next(next@),
        next@.len() * next@.len() <= isize::MAX,
    ensures
        is_interchange_matrix(r@, next@, lines@.0),
{
    let interchanges = interchanges_of(lines);
    let n = next.nrows();
    let mut output = IndexMatrix::filled(n, 0);
    let mut s: usize = 0;
    while s < n
        invariant
            valid_next(next@),
            n == next@.len(),
            interchanges@ == interchange_set(lines@.0),
            is_square(output@, n as nat),
            s <= n,
            forall|a: int, b: int|
                0 <= a < s && 0 <= b < n ==> #[trigger] output@[a][b] == interchange_entry(
                    next@,
                    lines@.0,
                    a as usize,
                    b as usize,
                ),
        decreases n - s,
    {
        let mut e: usize = 0;
        while e < n
            invariant
                valid_next(next@),
                n == next@.len(),
                interchanges@ == interchange_set(lines@.0),
                is_square(output@, n as nat),
                s < n,
                e <= n,
                forall|a: int, b: int|
                    0 <= a < s && 0 <= b < n ==> #[trigger] output@[a][b] == interchange_entry(
                        next@,
                        lines@.0,
                        a as usize,
                        b as usize,
                    ),
                forall|b: int|
                    0 <= b < e ==> #[trigger] output@[s as int][b] == interchange_entry(
                        next@,
                        lines@.0,
                        s,
                        b as usize,
                    ),
            decreases n - e,
        {
            let v = interchange_cell(s, e, next, lines, &interchanges);
            output.set(s, e, v);
            e = e + 1;
        }
        s = s + 1;
    }
    output
}

/// Relies on rayon's `into_par_iter` over `0..total`, `map` and
/// `collect_into_vec`, which keeps the order of the indices: item `k` is
/// `interchange_cell(k / n, k % n, ..)`.
#[verifier::external_body]
fn par_interchange_cells(
    total: usize,
    n: usize,
    next: &IndexMatrix,
    lines: &MetroLinesSet,
    interchanges: &HashSet<usize>,
) -> (r: Vec<usize>)
    requires
        n > 0,
        total == n * n,
        valid_next(next@),
        next@.len() == n,
        interchanges@ == interchange_set(lines@.0),
    ensures
        r@.len() == total,
        forall|k: int|
            0 <= k < total ==> #[trigger] r@[k] == interchange_entry(
                next@,
                lines@.0,
                (k / n as int) as usize,
                (k % n as int) as usize,
            ),
{
    let mut out = Vec::new();
    (0..total).into_par_iter().map(|k| cell_at(k, n, next, lines, interchanges)).collect_into_vec(&mut out);
    out
}

/// The cell of flat index `k` in an `n` by `n` matrix.
fn cell_at(
    k: usize,
    n: usize,
    next: &IndexMatrix,
    lines: &MetroLinesSet,
    interchanges: &HashSet<usize>,
) -> (r: usize)
    requires
        n > 0,
        k < n * n,
        valid_next(next@),
        next@.len() == n,
        interchanges@ == interchange_set(lines@.0),
    ensures
        r == interchange_entry(next@, lines@.0, (k / n) as usize, (k % n) as usize),
{
    proof {
        assert(k / n < n) by (nonlinear_arith)
            requires n > 0, k < n * n;
    }
    interchange_cell(k / n, k % n, next, lines, interchanges)
}

/// Builds the interchange-path matrix with the pairs computed in parallel.
pub fn par_build_interchange_path_matrix(next: &IndexMatrix, lines: &MetroLinesSet) -> (r: IndexMatrix)
    requires
        valid_next(next@),
        next@.len() * next@.len() <= isize::MAX,
    ensures
        is_interchange_matrix(r@, next@, lines@.0),
{
    let interchanges = interchanges_of(lines);
    let n = next.nrows();
    let mut output = IndexMatrix::filled(n, 0);
    if n == 0 {
        return output;
    }
    let cells = par_interchange_cells(n * n, n, next, lines, &interchanges);
    let mut s: usize = 0;
    while s < n
        invariant
            n > 0,
            n == next@.len(),
            n * n <= isize::MAX,
            cells@.len() == n * n,
            forall|k: int|
                0 <= k < n * n ==> #[trigger] cells@[k] == interchange_entry(
                    next@,
                    lines@.0,
                    (k / n as int) as usize,
                    (k % n as int) as usize,
                ),
            is_square(output@, n as nat),
            s <= n,
            forall|a: int, b: int|
                0 <= a < s && 0 <= b < n ==> #[trigger] output@[a][b] == interchange_entry(
                    next@,
                    lines@.0,
                    a as usize,
                    b as usize,
                ),
        decreases n - s,
    {
        let mut e: usize = 0;
        while e < n
            invariant
                n > 0,
                n == next@.len(),
                n * n <= isize::MAX,
                cells@.len() == n * n,
                forall|k: int|
                    0 <= k < n * n ==> #[trigger] cells@[k] == interchange_entry(
                        next@,
                        lines@.0,
                        (k / n as int) as usize,
                        (k % n as int) as usize,
                    ),
                is_square(output@, n as nat),
                s < n,
                e <= n,
                forall|a: int, b: int|
                    0 <= a < s && 0 <= b < n ==> #[trigger] output@[a][b] == interchange_entry(
                        next@,
                        lines@.0,
                        a as usize,
                        b as usize,
                    ),
                forall|b: int|
                    0 <= b < e ==> #[trigger] output@[s as int][b] == interchange_entry(
                        next@,
                        lines@.0,
                        s,
                        b as usize,
                    ),
            decreases n - e,
        {
            proof {
                assert(s * n + e < n * n) by (nonlinear_arith)
                    requires s < n, e < n;
                assert((s * n + e) / n as int == s && (s * n + e) % n as int == e) by (nonlinear_arith)
                    requires s < n, e < n, n > 0;
            }
            let v = cells[s * n + e];
            output.set(s, e, v);
            e = e + 1;
        }
        s = s + 1;
    }
    output
}

} // verus!

verus! {

/// Every entry of an interchange-path matrix is a node.
pub proof fn lemma_interchange_matrix_entries(m: Seq<Seq<usize>>, next: Seq<Seq<usize>>, lines: Seq<Seq<usize>>)
    requires
        valid_next(next),
        is_interchange_matrix(m, next, lines),
    ensures
        valid_next(m),
{
    assert forall|s: int, d: int| 0 <= s < next.len() && 0 <= d < next.len() implies #[trigger] m[s][d] < next.len() by {
        lemma_walk_interchange_node(next, interchange_set(lines), s as usize, d as usize, next.len());
    }
}

/// The station a walk gives is a node.
pub proof fn lemma_walk_interchange_node(next: Seq<Seq<usize>>, inter: Set<usize>, x: usize, d: usize, fuel: nat)
    requires
        valid_next(next),
        x < next.len(),
        d < next.len(),
    ensures
        walk_interchange(next, inter, x, d, fuel) < next.len(),
    decreases fuel,
{
    if x != d && fuel > 0 && !inter.contains(x) {
        lemma_walk_interchange_node(next, inter, next[x as int][d as int], d, (fuel - 1) as nat);
    }
}

} // verus!

verus! {

/// A walk that does not resolve gives the target.
pub proof fn lemma_unresolved_walk(next: Seq<Seq<usize>>, inter: Set<usize>, x: usize, d: usize, f: nat)
    requires
        !walk_resolves(next, inter, x, d, f),
    ensures
        walk_interchange(next, inter, x, d, f) == d,
    decreases f,
{
    if x != d && f > 0 && !inter.contains(x) {
        lemma_unresolved_walk(next, inter, next[x as int][d as int], d, (f - 1) as nat);
    }
}

/// `cache` followed by `cur` is a stretch of the walk toward `d` that
/// meets neither `d` nor an interchange before `cur`.
pub open spec fn chain_ok(next: Seq<Seq<usize>>, inter: Set<usize>, d: usize, cache: Seq<usize>, cur: usize) -> bool {
    forall|i: int|
        0 <= i < cache.len() ==> {
            &&& #[trigger] cache[i] != d
            &&& !inter.contains(cache[i])
            &&& cache[i] < next.len()
            &&& next[cache[i] as int][d as int] == if i + 1 < cache.len() {
                cache[i + 1]
            } else {
                cur
            }
        }
}

/// From a node of the stretch, the walk goes through `cur`.
pub proof fn lemma_chain(
    next: Seq<Seq<usize>>,
    inter: Set<usize>,
    d: usize,
    cache: Seq<usize>,
    cur: usize,
    i: int,
    f: nat,
)
    requires
        chain_ok(next, inter, d, cache, cur),
        0 <= i < cache.len(),
    ensures
        f >= cache.len() - i ==> {
            &&& walk_interchange(next, inter, cache[i], d, f) == walk_interchange(
                next,
                inter,
                cur,
                d,
                (f - (cache.len() - i)) as nat,
            )
            &&& walk_resolves(next, inter, cache[i], d, f) == walk_resolves(
                next,
                inter,
                cur,
                d,
                (f - (cache.len() - i)) as nat,
            )
        },
        f < cache.len() - i ==> !walk_resolves(next, inter, cache[i], d, f),
    decreases cache.len() - i,
{
    assert(cache[i] != d);
    if f > 0 && i + 1 < cache.len() {
        lemma_chain(next, inter, d, cache, cur, i + 1, (f - 1) as nat);
    }
}

/// A memo entry for the walk from `x` toward `d`: the station it gives and
/// the fewest steps in which it resolves, at most `n`.
pub open spec fn memo_entry_ok(next: Seq<Seq<usize>>, inter: Set<usize>, x: usize, d: usize, e: Option<(usize, usize)>) -> bool {
    e matches Some((v, k)) ==> {
        &&& k <= next.len()
        &&& walk_resolves(next, inter, x, d, k as nat)
        &&& walk_interchange(next, inter, x, d, k as nat) == v
        &&& (k > 0 ==> !walk_resolves(next, inter, x, d, (k - 1) as nat))
    }
}

/// Remembers, for each node and target, where the walk resolves: the
/// station in one matrix, and one more than the number of steps in another,
/// 0 meaning nothing is remembered.
pub struct MemoEngine {
    values: IndexMatrix,
    steps: IndexMatrix,
}

impl MemoEngine {
    /// Both matrices are `n` by `n`, with `n` a count whose successor fits.
    pub closed spec fn wf(&self) -> bool {
        &&& is_square(self.values@, self.values@.len())
        &&& is_square(self.steps@, self.values@.len())
        &&& self.values@.len() < usize::MAX
    }

    pub closed spec fn entries(&self) -> Seq<Seq<Option<(usize, usize)>>> {
        let n = self.values@.len();
        Seq::new(
            n,
            |i: int|
                Seq::new(
                    n,
                    |j: int|
                        if self.steps@[i][j] == 0 {
                            None
                        } else {
                            Some((self.values@[i][j], (self.steps@[i][j] - 1) as usize))
                        },
                ),
        )
    }

    pub fn new(size: usize) -> (r: Self)
        requires
            size * size <= isize::MAX,
        ensures
            r.wf(),
            is_square(r.entries(), size as nat),
            forall|i: int, j: int| 0 <= i < size && 0 <= j < size ==> #[trigger] r.entries()[i][j] is None,
    {
        proof {
            assert(size < usize::MAX) by (nonlinear_arith)
                requires size * size <= isize::MAX;
        }
        let r = Self { values: IndexMatrix::filled(size, 0), steps: IndexMatrix::filled(size, 0) };
        assert forall|i: int| 0 <= i < size implies (#[trigger] r.entries()[i]).len() == size by {}
        r
    }

    pub fn get_value(&self, idx: (usize, usize)) -> (r: Option<(usize, usize)>)
        requires
            self.wf(),
            idx.0 < self.entries().len(),
            idx.1 < self.entries()[idx.0 as int].len(),
        ensures
            r == self.entries()[idx.0 as int][idx.1 as int],
    {
        let k = self.steps.get(idx.0, idx.1);
        if k == 0 {
            None
        } else {
            Some((self.values.get(idx.0, idx.1), k - 1))
        }
    }

    pub fn set_value(&mut self, idx: (usize, usize), value: (usize, usize))
        requires
            old(self).wf(),
            idx.0 < old(self).entries().len(),
            idx.1 < old(self).entries()[idx.0 as int].len(),
            value.1 <= old(self).entries().len(),
        ensures
            final(self).wf(),
            final(self).entries() == crate::matrix::update_cell(
                old(self).entries(),
                idx.0 as int,
                idx.1 as int,
                Some(value),
            ),
    {
        self.values.set(idx.0, idx.1, value.0);
        self.steps.set(idx.0, idx.1, value.1 + 1);
        proof {
            let e = self.entries();
            let u = crate::matrix::update_cell(old(self).entries(), idx.0 as int, idx.1 as int, Some(value));
            assert forall|i: int| 0 <= i < e.len() implies #[trigger] e[i] =~= u[i] by {}
            assert(e =~= u);
        }
    }
}

/// Walks the successor matrix toward a target and remembers, for every
/// node met on the way, where the walk resolves.
pub struct InterchangePathFinder<'a> {
    next: &'a IndexMatrix,
    interchanges: HashSet<usize>,
    memo: MemoEngine,
}

impl<'a> InterchangePathFinder<'a> {
    pub closed spec fn wf(&self) -> bool {
        &&& valid_next(self.next@)
        &&& self.memo.wf()
        &&& is_square(self.memo.entries(), self.next@.len())
        &&& forall|x: int, d: int|
            0 <= x < self.next@.len() && 0 <= d < self.next@.len() ==> memo_entry_ok(
                self.next@,
                self.interchanges@,
                x as usize,
                d as usize,
                #[trigger] self.memo.entries()[x][d],
            )
    }

    pub closed spec fn matrix(&self) -> Seq<Seq<usize>> {
        self.next@
    }

    pub closed spec fn inter(&self) -> Set<usize> {
        self.interchanges@
    }

    pub fn new(next: &'a IndexMatrix, interchanges: HashSet<usize>) -> (r: Self)
        requires
            valid_next(next@),
            next@.len() * next@.len() <= isize::MAX,
        ensures
            r.wf(),
            r.matrix() == next@,
            r.inter() == interchanges@,
    {
        let n = next.nrows();
        let memo = MemoEngine::new(n);
        Self { next, interchanges, memo }
    }

    /// Whether the walk from `s` toward `e` is remembered.
    pub fn is_set(&self, s: usize, e: usize) -> (r: bool)
        requires
            self.wf(),
            s < self.matrix().len(),
            e < self.matrix().len(),
    {
        self.memo.get_value((s, e)).is_some()
    }

    /// The first interchange met walking from `start` toward `stop` (at
    /// most as many steps as nodes), or `stop` when there is none.
    #[verifier::rlimit(40)]
    pub fn path_iteration(&mut self, start: usize, stop: usize) -> (r: usize)
        requires
            old(self).wf(),
            start < old(self).matrix().len(),
            stop < old(self).matrix().len(),
        ensures
            final(self).wf(),
            final(self).matrix() == old(self).matrix(),
            final(self).inter() == old(self).inter(),
            r == walk_interchange(old(self).matrix(), old(self).inter(), start, stop, old(self).matrix().len()),
    {
        let ghost nx = self.next@;
        let ghost inter = self.interchanges@;
        let n = self.next.nrows();
        if let Some((v, k)) = self.memo.get_value((start, stop)) {
            proof {
                assert(memo_entry_ok(nx, inter, start, stop, self.memo.entries()[start as int][stop as int]));
                lemma_resolved_walk_stable(nx, inter, start, stop, k as nat, n as nat);
            }
            return v;
        }
        let mut cache: Vec<usize> = Vec::new();
        let mut cur = start;
        let mut fuel = n;
        let mut found: Option<(usize, usize)> = None;
        while fuel > 0 && cur != stop
            invariant_except_break
                found is None,
            invariant
                self.wf(),
                nx == self.next@,
                inter == self.interchanges@,
                n == nx.len(),
                cur < n,
                stop < n,
                start < n,
                fuel + cache@.len() == n,
                chain_ok(nx, inter, stop, cache@, cur),
                cache@.len() == 0 ==> cur == start,
                cache@.len() > 0 ==> cache@[0] == start,
            ensures
                found is None ==> fuel == 0 || cur == stop,
                found is Some ==> cur != stop && memo_entry_ok(nx, inter, cur, stop, found),
            decreases fuel,
        {
            let e = self.memo.get_value((cur, stop));
            if e.is_some() {
                found = e;
                proof {
                    assert(memo_entry_ok(nx, inter, cur, stop, self.memo.entries()[cur as int][stop as int]));
                }
                break;
            }
            if self.interchanges.contains(&cur) {
                found = Some((cur, 1));
                proof {
                    assert(walk_resolves(nx, inter, cur, stop, 1));
                    assert(!walk_resolves(nx, inter, cur, stop, 0));
                }
                break;
            }
            let ghost old_cache = cache@;
            cache.push(cur);
            let nxt = self.next.get(cur, stop);
            proof {
                assert forall|i: int| 0 <= i < cache@.len() implies {
                    &&& #[trigger] cache@[i] != stop
                    &&& !inter.contains(cache@[i])
                    &&& cache@[i] < nx.len()
                    &&& nx[cache@[i] as int][stop as int] == if i + 1 < cache@.len() {
                        cache@[i + 1]
                    } else {
                        nxt
                    }
                } by {
                    if i + 1 < cache@.len() {
                        assert(cache@[i] == old_cache[i]);
                        assert(cache@[i + 1] == if i + 1 < old_cache.len() { old_cache[i + 1] } else { cur });
                    }
                }
            }
            cur = nxt;
            fuel = fuel - 1;
        }
        if found.is_none() && cur == stop {
            found = Some((stop, 0));
        }
        let c = cache.len();
        match found {
            None => {
                proof {
                    if c > 0 {
                        lemma_chain(nx, inter, stop, cache@, cur, 0, n as nat);
                    }
                }
                stop
            },
            Some((v, kc)) => {
                proof {
                    assert(memo_entry_ok(nx, inter, cur, stop, Some((v, kc))));
                }
                let mut i: usize = 0;
                while i < c
                    invariant
                        self.wf(),
                        nx == self.next@,
                        inter == self.interchanges@,
                        n == nx.len(),
                        c == cache@.len(),
                        c <= n,
                        stop < n,
                        cur < n,
                        chain_ok(nx, inter, stop, cache@, cur),
                        memo_entry_ok(nx, inter, cur, stop, Some((v, kc))),
                    decreases c - i,
                {
                    let x = cache[i];
                    if kc <= n && c - i <= n - kc {
                        let steps = (c - i) + kc;
                        proof {
                            lemma_chain(nx, inter, stop, cache@, cur, i as int, steps as nat);
                            lemma_chain(nx, inter, stop, cache@, cur, i as int, (steps - 1) as nat);
                        }
                        self.memo.set_value((x, stop), (v, steps));
                    }
                    i = i + 1;
                }
                proof {
                    if c > 0 {
                        lemma_chain(nx, inter, stop, cache@, cur, 0, n as nat);
                    }
                    if c + kc <= n {
                        lemma_resolved_walk_stable(nx, inter, cur, stop, kc as nat, (n - c) as nat);
                    } else {
                        if kc > 0 && !walk_resolves(nx, inter, cur, stop, (n - c) as nat) {
                            lemma_unresolved_walk(nx, inter, cur, stop, (n - c) as nat);
                        }
                        if walk_resolves(nx, inter, cur, stop, (n - c) as nat) {
                            lemma_resolved_walk_stable(nx, inter, cur, stop, (n - c) as nat, (kc - 1) as nat);
                        }
                    }
                }
                if c <= n - kc {
                    v
                } else {
                    stop
                }
            },
        }
    }
}

/// Builds the interchange-path matrix, remembering every walk so that later
/// walks through the same nodes stop early.
pub fn fast_build_interchange_path_matrix(next: &IndexMatrix, lines: &MetroLinesSet) -> (r: IndexMatrix)
    requires
        valid_next(next@),
        next@.len() * next@.len() <= isize::MAX,
    ensures
        is_interchange_matrix(r@, next@, lines@.0),
{
    let interchanges = interchanges_of(lines);
    let n = next.nrows();
    let mut output = IndexMatrix::filled(n, 0);
    let mut ipf = InterchangePathFinder::new(next, interchanges);
    let mut s: usize = 0;
    while s < n
        invariant
            valid_next(next@),
            n == next@.len(),
            ipf.wf(),
            ipf.matrix() == next@,
            ipf.inter() == interchange_set(lines@.0),
            is_square(output@, n as nat),
            s <= n,
            forall|a: int, b: int|
                0 <= a < s && 0 <= b < n ==> #[trigger] output@[a][b] == interchange_entry(
                    next@,
                    lines@.0,
                    a as usize,
                    b as usize,
                ),
        decreases n - s,
    {
        let mut e: usize = 0;
        while e < n
            invariant
                valid_next(next@),
                n == next@.len(),
                ipf.wf(),
                ipf.matrix() == next@,
                ipf.inter() == interchange_set(lines@.0),
                is_square(output@, n as nat),
                s < n,
                e <= n,
                forall|a: int, b: int|
                    0 <= a < s && 0 <= b < n ==> #[trigger] output@[a][b] == interchange_entry(
                        next@,
                        lines@.0,
                        a as usize,
                        b as usize,
                    ),
                forall|b: int|
                    0 <= b < e ==> #[trigger] output@[s as int][b] == interchange_entry(
                        next@,
                        lines@.0,
                        s,
                        b as usize,
                    ),
            decreases n - e,
        {
            if lines.is_same_line(s, e) {
                output.set(s, e, e);
            } else {
                let v = ipf.path_iteration(s, e);
                output.set(s, e, v);
            }
            e = e + 1;
        }
        s = s + 1;
    }
    output
}

/// The three builders of the interchange-path matrix agree: any matrix
/// that one of them may return is the one each other returns.
pub proof fn lemma_builders_agree(m1: Seq<Seq<usize>>, m2: Seq<Seq<usize>>, next: Seq<Seq<usize>>, lines: Seq<Seq<usize>>)
    requires
        is_interchange_matrix(m1, next, lines),
        is_interchange_matrix(m2, next, lines),
    ensures
        m1 == m2,
{
    assert forall|s: int| 0 <= s < m1.len() implies #[trigger] m1[s] == m2[s] by {
        assert(m1[s] =~= m2[s]);
    }
    assert(m1 =~= m2);
}

/// A trip from a station to itself leaves the line at that station.
pub proof fn lemma_interchange_diagonal(m: Seq<Seq<usize>>, next: Seq<Seq<usize>>, lines: Seq<Seq<usize>>, s: usize)
    requires
        is_interchange_matrix(m, next, lines),
        s < next.len(),
    ensures
        m[s as int][s as int] == s,
{
}

} // verus!
