//! All-pairs shortest paths by the Floyd–Warshall algorithm.
use crate::matrix::{IndexMatrix, WeightMatrix, is_square, update_cell};
use crate::path_iterator::valid_next;
use vstd::prelude::*;

verus! {

/// The weight that marks a missing arc.
pub const INF: i64 = i64::MAX;

/// The successor matrix before any relaxation: a node is its own successor,
/// an arc leads straight to its head, and every other entry is 0.
pub open spec fn initial_next(g: Seq<Seq<i64>>, i: int, j: int) -> usize {
    if i == j {
        i as usize
    } else if g[i][j] < INF {
        j as usize
    } else {
        0
    }
}

/// The condition under which the path through `h` replaces the path from
/// `i` to `j`: neither half is missing, and their sum is a smaller weight.
pub open spec fn relaxes(ij: i64, ih: i64, hj: i64) -> bool {
    &&& ih != INF
    &&& hj != INF
    &&& i64::MIN <= ih + hj
    &&& ih + hj < ij
}

/// The weight of the walk through the nodes of `w`, arc by arc.
pub open spec fn walk_weight(g: Seq<Seq<i64>>, w: Seq<int>) -> int
    decreases w.len(),
{
    if w.len() < 2 {
        0
    } else {
        g[w[0]][w[1]] + walk_weight(g, w.drop_first())
    }
}

/// `w` is a walk of at least one arc of `g`, every arc present.
pub open spec fn is_walk(g: Seq<Seq<i64>>, w: Seq<int>) -> bool {
    &&& w.len() >= 2
    &&& forall|k: int| 0 <= k < w.len() ==> 0 <= #[trigger] w[k] < g.len()
    &&& forall|k: int| 0 <= k < w.len() - 1 ==> #[trigger] g[w[k]][w[k + 1]] != INF
}

/// Some walk of `g` from `i` to `j` weighs `d`.
pub open spec fn has_walk(g: Seq<Seq<i64>>, i: int, j: int, d: int) -> bool {
    exists|w: Seq<int>| is_walk(g, w) && w[0] == i && w.last() == j && #[trigger] walk_weight(g, w) == d
}

/// Joining two walks at a common node adds their weights.
pub proof fn lemma_join_walks(g: Seq<Seq<i64>>, w1: Seq<int>, w2: Seq<int>)
    requires
        is_walk(g, w1),
        is_walk(g, w2),
        w1.last() == w2[0],
    ensures
        is_walk(g, w1 + w2.drop_first()),
        walk_weight(g, w1 + w2.drop_first()) == walk_weight(g, w1) + walk_weight(g, w2),
        (w1 + w2.drop_first())[0] == w1[0],
        (w1 + w2.drop_first()).last() == w2.last(),
    decreases w1.len(),
{
    let j = w1 + w2.drop_first();
    assert forall|k: int| 0 <= k < j.len() - 1 implies #[trigger] g[j[k]][j[k + 1]] != INF by {
        if k < w1.len() - 1 {
            assert(j[k] == w1[k] && j[k + 1] == w1[k + 1]);
        } else if k == w1.len() - 1 {
            assert(j[k] == w2[0] && j[k + 1] == w2[1]);
        } else {
            assert(j[k] == w2[k - w1.len() + 1] && j[k + 1] == w2[k - w1.len() + 2]);
        }
    }
    assert forall|k: int| 0 <= k < j.len() implies 0 <= #[trigger] j[k] < g.len() by {
        if k < w1.len() {
            assert(j[k] == w1[k]);
        } else {
            assert(j[k] == w2[k - w1.len() + 1]);
        }
    }
    assert(j[0] == w1[0] && j[1] == w1[1]);
    if w1.len() == 2 {
        assert(j.drop_first() =~= w2);
        assert(walk_weight(g, w1.drop_first()) == 0);
    } else {
        let t = w1.drop_first();
        assert forall|k: int| 0 <= k < t.len() - 1 implies #[trigger] g[t[k]][t[k + 1]] != INF by {
            assert(t[k] == w1[k + 1] && t[k + 1] == w1[k + 2]);
        }
        assert forall|k: int| 0 <= k < t.len() implies 0 <= #[trigger] t[k] < g.len() by {
            assert(t[k] == w1[k + 1]);
        }
        lemma_join_walks(g, t, w2);
        assert(j.drop_first() =~= t + w2.drop_first());
    }
}

/// A distance matrix with its successor matrix.
pub type FwState = (Seq<Seq<i64>>, Seq<Seq<usize>>);

/// The successor matrix before any relaxation.
pub open spec fn initial_next_matrix(g: Seq<Seq<i64>>) -> Seq<Seq<usize>> {
    Seq::new(g.len(), |i: int| Seq::new(g.len(), |j: int| initial_next(g, i, j)))
}

/// The guarded update of cell `(i, j)` through `h`: when the path through
/// `h` is shorter, it takes its length and the successor toward `h`.
pub open spec fn relax_cell(st: FwState, h: int, i: int, j: int) -> FwState {
    let d = st.0;
    let x = st.1;
    if relaxes(d[i][j], d[i][h], d[h][j]) {
        (update_cell(d, i, j, (d[i][h] + d[h][j]) as i64), update_cell(x, i, j, x[i][h]))
    } else {
        st
    }
}

/// The cells `(i, 0..j)` updated through `h`, in order.
pub open spec fn fw_row(st: FwState, h: int, i: int, j: nat) -> FwState
    decreases j,
{
    if j == 0 {
        st
    } else {
        relax_cell(fw_row(st, h, i, (j - 1) as nat), h, i, j - 1)
    }
}

/// The rows `0..i` updated through `h`, in order, each of `n` cells.
pub open spec fn fw_round(st: FwState, h: int, i: nat, n: nat) -> FwState
    decreases i,
{
    if i == 0 {
        st
    } else {
        fw_row(fw_round(st, h, (i - 1) as nat, n), h, i - 1, n)
    }
}

/// The rounds through `0..h`, in order, over an `n` by `n` matrix.
pub open spec fn fw_rounds(st: FwState, h: nat, n: nat) -> FwState
    decreases h,
{
    if h == 0 {
        st
    } else {
        fw_round(fw_rounds(st, (h - 1) as nat, n), h - 1, n, n)
    }
}

/// The distances and successors that Floyd–Warshall computes from the
/// adjacency matrix `g`: every round `h`, every cell in row order, relaxed in
/// place through `h`.
pub open spec fn fw_result(g: Seq<Seq<i64>>) -> FwState {
    fw_rounds((g, initial_next_matrix(g)), g.len(), g.len())
}

/// The relaxation test, computed without overflow.
fn update_condition(ij: i64, ih: i64, hj: i64) -> (r: bool)
    ensures
        r == relaxes(ij, ih, hj),
{
    if ih == INF || hj == INF {
        false
    } else {
        match ih.checked_add(hj) {
            Some(s) => ij > s,
            None => false,
        }
    }
}

/// The distance matrix is the adjacency matrix itself; the successor matrix
/// is `initial_next`.
pub fn init_matrixes(g: WeightMatrix) -> (r: (WeightMatrix, IndexMatrix))
    requires
        is_square(g@, g@.len()),
        g@.len() * g@.len() <= isize::MAX,
    ensures
        r.0@ == g@,
        is_square(r.1@, g@.len()),
        forall|i: int, j: int|
            0 <= i < g@.len() && 0 <= j < g@.len() ==> #[trigger] r.1@[i][j] == initial_next(
                g@,
                i,
                j,
            ),
{
    let n = g.nrows();
    let mut next = IndexMatrix::filled(n, 0);
    let mut i: usize = 0;
    while i < n
        invariant
            n == g@.len(),
            is_square(g@, n as nat),
            is_square(next@, n as nat),
            i <= n,
            forall|a: int, b: int|
                0 <= a < i && 0 <= b < n ==> #[trigger] next@[a][b] == initial_next(g@, a, b),
            forall|a: int, b: int| i <= a < n && 0 <= b < n ==> #[trigger] next@[a][b] == 0,
        decreases n - i,
    {
        let mut j: usize = 0;
        while j < n
            invariant
                n == g@.len(),
                is_square(g@, n as nat),
                is_square(next@, n as nat),
                i < n,
                j <= n,
                forall|a: int, b: int|
                    0 <= a < i && 0 <= b < n ==> #[trigger] next@[a][b] == initial_next(g@, a, b),
                forall|b: int| 0 <= b < j ==> #[trigger] next@[i as int][b] == initial_next(g@, i as int, b),
                forall|b: int| j <= b < n ==> #[trigger] next@[i as int][b] == 0,
                forall|a: int, b: int| i < a < n && 0 <= b < n ==> #[trigger] next@[a][b] == 0,
            decreases n - j,
        {
            if i == j {
                next.set(i, j, i);
            } else if g.get(i, j) < INF {
                next.set(i, j, j);
            }
            j = j + 1;
        }
        i = i + 1;
    }
    (g, next)
}

/// Floyd–Warshall over the square adjacency matrix `g`, where `INF` marks a
/// missing arc. Returns the distance matrix and the successor matrix of
/// `fw_result`; moreover no distance exceeds the weight of the direct arc,
/// every finite distance is the weight of a walk, and every successor is a
/// node.
pub fn all_shortest_path(g: WeightMatrix) -> (r: (WeightMatrix, IndexMatrix))
    requires
        is_square(g@, g@.len()),
        g@.len() * g@.len() <= isize::MAX,
    ensures
        is_square(r.0@, g@.len()),
        valid_next(r.1@),
        r.1@.len() == g@.len(),
        r.0@ == fw_result(g@).0,
        r.1@ == fw_result(g@).1,
        forall|i: int, j: int|
            0 <= i < g@.len() && 0 <= j < g@.len() ==> #[trigger] r.0@[i][j] <= g@[i][j],
        forall|i: int, j: int|
            0 <= i < g@.len() && 0 <= j < g@.len() && #[trigger] r.0@[i][j] != INF ==> has_walk(
                g@,
                i,
                j,
                r.0@[i][j] as int,
            ),
{
    let ghost g0 = g@;
    let (mut dist, mut next) = init_matrixes(g);
    let n = dist.nrows();
    assert forall|a: int, b: int| 0 <= a < n && 0 <= b < n && #[trigger] dist@[a][b] != INF implies has_walk(g0, a, b, dist@[a][b] as int) by {
        let w = seq![a, b];
        assert(w[0] == a && w[1] == b);
        assert(w.drop_first() =~= seq![b]);
        assert(walk_weight(g0, seq![b]) == 0);
        assert(walk_weight(g0, w) == g0[a][b]);
        assert(is_walk(g0, w));
    }
    assert(valid_next(next@)) by {
        assert forall|i: int, j: int| 0 <= i < n && 0 <= j < n implies #[trigger] next@[i][j] < n by {
            assert(next@[i][j] == initial_next(g0, i, j));
        }
    }
    let ghost init: FwState = (g0, initial_next_matrix(g0));
    assert forall|i: int| 0 <= i < n implies #[trigger] next@[i] =~= initial_next_matrix(g0)[i] by {}
    assert(next@ =~= initial_next_matrix(g0));
    let mut h: usize = 0;
    while h < n
        invariant
            n == g0.len(),
            is_square(dist@, n as nat),
            valid_next(next@),
            next@.len() == n,
            h <= n,
            forall|a: int, b: int| 0 <= a < n && 0 <= b < n ==> #[trigger] dist@[a][b] <= g0[a][b],
            forall|a: int, b: int|
                0 <= a < n && 0 <= b < n && #[trigger] dist@[a][b] != INF ==> has_walk(g0, a, b, dist@[a][b] as int),
            init == (g0, initial_next_matrix(g0)),
            (dist@, next@) == fw_rounds(init, h as nat, n as nat),
        decreases n - h,
    {
        let mut i: usize = 0;
        while i < n
            invariant
                n == g0.len(),
                is_square(dist@, n as nat),
                valid_next(next@),
                next@.len() == n,
                h < n,
                i <= n,
                forall|a: int, b: int|
                    0 <= a < n && 0 <= b < n ==> #[trigger] dist@[a][b] <= g0[a][b],
                forall|a: int, b: int|
                    0 <= a < n && 0 <= b < n && #[trigger] dist@[a][b] != INF ==> has_walk(g0, a, b, dist@[a][b] as int),
                (dist@, next@) == fw_round(fw_rounds(init, h as nat, n as nat), h as int, i as nat, n as nat),
            decreases n - i,
        {
            let mut j: usize = 0;
            while j < n
                invariant
                    n == g0.len(),
                    is_square(dist@, n as nat),
                    valid_next(next@),
                    next@.len() == n,
                    h < n,
                    i < n,
                    j <= n,
                    forall|a: int, b: int|
                        0 <= a < n && 0 <= b < n ==> #[trigger] dist@[a][b] <= g0[a][b],
                    forall|a: int, b: int|
                        0 <= a < n && 0 <= b < n && #[trigger] dist@[a][b] != INF ==> has_walk(g0, a, b, dist@[a][b] as int),
                    (dist@, next@) == fw_row(
                        fw_round(fw_rounds(init, h as nat, n as nat), h as int, i as nat, n as nat),
                        h as int,
                        i as int,
                        j as nat,
                    ),
                decreases n - j,
            {
                let ij = dist.get(i, j);
                let ih = dist.get(i, h);
                let hj = dist.get(h, j);
                if update_condition(ij, ih, hj) {
                    let nh = next.get(i, h);
                    let ghost d0 = dist@;
                    proof {
                        let w1 = choose|w: Seq<int>| is_walk(g0, w) && w[0] == i && w.last() == h && #[trigger] walk_weight(g0, w) == ih as int;
                        let w2 = choose|w: Seq<int>| is_walk(g0, w) && w[0] == h && w.last() == j && #[trigger] walk_weight(g0, w) == hj as int;
                        lemma_join_walks(g0, w1, w2);
                        assert(walk_weight(g0, w1 + w2.drop_first()) == ih + hj);
                    }
                    dist.set(i, j, ih + hj);
                    assert forall|a: int, b: int| 0 <= a < n && 0 <= b < n implies #[trigger] dist@[a][b] <= g0[a][b] by {
                        if a != i || b != j {
                            assert(dist@[a][b] == d0[a][b]);
                        }
                    }
                    assert forall|a: int, b: int| 0 <= a < n && 0 <= b < n && #[trigger] dist@[a][b] != INF implies has_walk(g0, a, b, dist@[a][b] as int) by {
                        if a != i || b != j {
                            assert(dist@[a][b] == d0[a][b]);
                        }
                    }
                    let ghost x0 = next@;
                    next.set(i, j, nh);
                    assert forall|a: int, b: int| 0 <= a < n && 0 <= b < n implies #[trigger] next@[a][b] < n by {
                        if a != i || b != j {
                            assert(next@[a][b] == x0[a][b]);
                        }
                    }
                }
                j = j + 1;
            }
            i = i + 1;
        }
        h = h + 1;
    }
    (dist, next)
}

} // verus!
