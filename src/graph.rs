//! A graph of stations held as adjacency lists, and its conversion to the
//! adjacency matrix that routing starts from.
use crate::all_shortest_path::INF;
use crate::matrix::{WeightMatrix, is_square, rows_have_len, vec_rows};
use vstd::prelude::*;

verus! {

/// Weight of an arc.
pub type GraphWeight = u32;

/// An arc: some information, its head, and its weight.
pub struct Arc<A> {
    pub info: A,
    pub next: usize,
    pub weight: GraphWeight,
}

/// The arcs leaving each node.
pub struct AdjacentList<A> {
    pub list: Vec<Vec<Arc<A>>>,
}

/// A graph: some information on each node, and the arcs leaving it.
pub struct Graph<N, A> {
    nodes: Vec<N>,
    adj: AdjacentList<A>,
}

/// The heads and weights of the arcs leaving each node.
pub open spec fn arcs_of<A>(list: Seq<Vec<Arc<A>>>) -> Seq<Seq<(usize, GraphWeight)>> {
    list.map_values(|v: Vec<Arc<A>>| v@.map_values(|a: Arc<A>| (a.next, a.weight)))
}

impl<N, A> Graph<N, A> {
    pub closed spec fn node_count(&self) -> nat {
        self.nodes@.len()
    }

    pub closed spec fn arcs(&self) -> Seq<Seq<(usize, GraphWeight)>> {
        arcs_of(self.adj.list@)
    }

    /// Every arc list belongs to a node and leads to a node.
    pub open spec fn wf(&self) -> bool {
        &&& self.arcs().len() == self.node_count()
        &&& forall|i: int, k: int|
            0 <= i < self.arcs().len() && 0 <= k < self.arcs()[i].len() ==> (#[trigger] self.arcs()[i][k]).0
                < self.node_count()
    }

    pub fn new(nodes: Vec<N>, adj: AdjacentList<A>) -> (r: Self)
        ensures
            r.node_count() == nodes@.len(),
            r.arcs() == arcs_of(adj.list@),
    {
        Self { nodes, adj }
    }

    /// The number of nodes.
    pub fn len(&self) -> (r: usize)
        ensures
            r == self.node_count(),
    {
        self.nodes.len()
    }

    /// Whether the graph has no node.
    pub fn is_empty(&self) -> (r: bool)
        ensures
            r == (self.node_count() == 0),
    {
        self.nodes.len() == 0
    }
}

/// Cell `j` of row `i` after the first `k` arcs leaving `i` were written
/// over a row of missing arcs with 0 on the diagonal, each arc writing its
/// weight over what was there.
pub open spec fn row_cell(arcs: Seq<(usize, GraphWeight)>, i: int, j: int, k: int) -> i64
    decreases k,
{
    if k <= 0 {
        if i == j {
            0
        } else {
            INF
        }
    } else if arcs[k - 1].0 == j {
        arcs[k - 1].1 as i64
    } else {
        row_cell(arcs, i, j, k - 1)
    }
}

/// Cell `(i, j)` of the adjacency matrix: the weight of the last arc from
/// `i` to `j`; else 0 from a node to itself and `INF` elsewhere.
pub open spec fn distance_cell(arcs: Seq<Seq<(usize, GraphWeight)>>, i: int, j: int) -> i64 {
    row_cell(arcs[i], i, j, arcs[i].len() as int)
}

/// Converts the adjacency lists of `g` to its adjacency matrix; what the
/// nodes and arcs carry besides weights is dropped.
pub fn to_distance_matrix<N, A>(g: &Graph<N, A>) -> (r: WeightMatrix)
    requires
        g.wf(),
        g.node_count() > 0,
        g.node_count() * g.node_count() <= isize::MAX,
    ensures
        is_square(r@, g.node_count()),
        forall|i: int, j: int|
            0 <= i < g.node_count() && 0 <= j < g.node_count() ==> #[trigger] r@[i][j] == distance_cell(
                g.arcs(),
                i,
                j,
            ),
{
    let n = g.len();
    let ghost arcs = g.arcs();
    let mut rows: Vec<Vec<i64>> = Vec::new();
    let mut i: usize = 0;
    while i < n
        invariant
            g.wf(),
            n == g.node_count(),
            arcs == g.arcs(),
            i <= n,
            rows@.len() == i,
            forall|a: int| 0 <= a < i ==> (#[trigger] rows@[a])@.len() == n,
            forall|a: int, b: int| 0 <= a < i && 0 <= b < n ==> #[trigger] rows@[a]@[b] == distance_cell(arcs, a, b),
        decreases n - i,
    {
        let mut row: Vec<i64> = Vec::new();
        let mut j: usize = 0;
        while j < n
            invariant
                j <= n,
                row@.len() == j,
                forall|b: int| 0 <= b < j ==> #[trigger] row@[b] == if b == i { 0 } else { INF },
            decreases n - j,
        {
            if j == i {
                row.push(0);
            } else {
                row.push(INF);
            }
            j = j + 1;
        }
        let adj = &g.adj.list[i];
        let mut k: usize = 0;
        while k < adj.len()
            invariant
                g.wf(),
                n == g.node_count(),
                arcs == g.arcs(),
                i < n,
                adj == &g.adj.list@[i as int],
                k <= adj@.len(),
                row@.len() == n,
                forall|b: int| 0 <= b < n ==> #[trigger] row@[b] == row_cell(arcs[i as int], i as int, b, k as int),
            decreases adj.len() - k,
        {
            let head = adj[k].next;
            assert(arcs[i as int][k as int] == (adj@[k as int].next, adj@[k as int].weight));
            row.set(head, adj[k].weight as i64);
            k = k + 1;
        }
        rows.push(row);
        i = i + 1;
    }
    WeightMatrix::from_rows(&rows)
}

/// The larger endpoint of any arc.
pub open spec fn max_node(arcs: Seq<(usize, usize)>) -> int
    decreases arcs.len(),
{
    if arcs.len() == 0 {
        0
    } else {
        let m = max_node(arcs.drop_last());
        let (a, b) = arcs.last();
        let e = if a > b { a } else { b };
        if e as int > m { e as int } else { m }
    }
}

/// Two stations are joined by an arc, in either direction.
pub open spec fn joined(arcs: Seq<(usize, usize)>, i: int, j: int) -> bool {
    exists|k: int| 0 <= k < arcs.len() && ((#[trigger] arcs[k]).0 == i && arcs[k].1 == j || arcs[k].0 == j && arcs[k].1 == i)
}

/// The adjacency matrix of an undirected network with unit weights, given
/// by its arcs; its size is one more than the largest station named.
pub fn arcs_to_matrix(arcs: &Vec<(usize, usize)>) -> (r: WeightMatrix)
    requires
        arcs@.len() > 0,
        (max_node(arcs@) + 1) * (max_node(arcs@) + 1) <= isize::MAX,
    ensures
        is_square(r@, (max_node(arcs@) + 1) as nat),
        forall|i: int, j: int|
            0 <= i <= max_node(arcs@) && 0 <= j <= max_node(arcs@) ==> #[trigger] r@[i][j] == if i == j {
                0
            } else if joined(arcs@, i, j) {
                1
            } else {
                INF
            },
{
    let mut max: usize = 0;
    let mut k: usize = 0;
    while k < arcs.len()
        invariant
            k <= arcs@.len(),
            max == max_node(arcs@.subrange(0, k as int)),
        decreases arcs.len() - k,
    {
        let (a, b) = arcs[k];
        let e = if a > b { a } else { b };
        if e > max {
            max = e;
        }
        k = k + 1;
        assert(arcs@.subrange(0, k as int).drop_last() =~= arcs@.subrange(0, k - 1));
    }
    assert(arcs@.subrange(0, k as int) =~= arcs@);
    proof {
        lemma_max_node_bounds(arcs@);
    }
    proof {
        let m = max_node(arcs@);
        assert(m + 1 <= (m + 1) * (m + 1)) by (nonlinear_arith)
            requires m >= 0;
    }
    let n = max + 1;
    let mut rows: Vec<Vec<i64>> = Vec::new();
    let mut i: usize = 0;
    while i < n
        invariant
            n == max_node(arcs@) + 1,
            forall|q: int| 0 <= q < arcs@.len() ==> (#[trigger] arcs@[q]).0 < n && arcs@[q].1 < n,
            i <= n,
            rows@.len() == i,
            forall|a: int| 0 <= a < i ==> (#[trigger] rows@[a])@.len() == n,
            forall|a: int, b: int|
                0 <= a < i && 0 <= b < n ==> #[trigger] rows@[a]@[b] == if a == b {
                    0
                } else if joined(arcs@, a, b) {
                    1
                } else {
                    INF
                },
        decreases n - i,
    {
        let mut row: Vec<i64> = Vec::new();
        let mut j: usize = 0;
        while j < n
            invariant
                n == max_node(arcs@) + 1,
                i < n,
                j <= n,
                row@.len() == j,
                forall|b: int|
                    0 <= b < j ==> #[trigger] row@[b] == if i == b {
                        0
                    } else if joined(arcs@, i as int, b) {
                        1
                    } else {
                        INF
                    },
            decreases n - j,
        {
            let v = if i == j {
                0
            } else if is_joined(arcs, i, j) {
                1
            } else {
                INF
            };
            row.push(v);
            j = j + 1;
        }
        rows.push(row);
        i = i + 1;
    }
    assert(rows_have_len(vec_rows(rows@), rows@[0]@.len()));
    let r = WeightMatrix::from_rows(&rows);
    r
}

/// Every endpoint is at most the largest.
proof fn lemma_max_node_bounds(arcs: Seq<(usize, usize)>)
    ensures
        0 <= max_node(arcs),
        max_node(arcs) <= usize::MAX,
        forall|q: int| 0 <= q < arcs.len() ==> (#[trigger] arcs[q]).0 <= max_node(arcs) && arcs[q].1 <= max_node(arcs),
    decreases arcs.len(),
{
    if arcs.len() > 0 {
        lemma_max_node_bounds(arcs.drop_last());
        assert forall|q: int| 0 <= q < arcs.len() implies (#[trigger] arcs[q]).0 <= max_node(arcs) && arcs[q].1 <= max_node(arcs) by {
            if q < arcs.len() - 1 {
                assert(arcs[q] == arcs.drop_last()[q]);
            }
        }
    }
}

/// Whether an arc joins `i` and `j`.
fn is_joined(arcs: &Vec<(usize, usize)>, i: usize, j: usize) -> (r: bool)
    ensures
        r == joined(arcs@, i as int, j as int),
{
    let mut k: usize = 0;
    while k < arcs.len()
        invariant
            k <= arcs@.len(),
            forall|q: int| 0 <= q < k ==> !((#[trigger] arcs@[q]).0 == i && arcs@[q].1 == j || arcs@[q].0 == j && arcs@[q].1 == i),
        decreases arcs.len() - k,
    {
        let (a, b) = arcs[k];
        if (a == i && b == j) || (a == j && b == i) {
            assert(arcs@[k as int].0 == a && arcs@[k as int].1 == b);
            return true;
        }
        k = k + 1;
    }
    false
}

} // verus!
