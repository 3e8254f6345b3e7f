//! Routing tables of a network: from the adjacency matrix and the lines,
//! the direction matrix and the interchange-path matrix that passengers
//! consult at every station.
use crate::all_shortest_path::{all_shortest_path, fw_result};
use crate::interchange_path::{build_interchange_path_matrix, fast_build_interchange_path_matrix, is_interchange_matrix, lemma_interchange_matrix_entries};
use crate::matrix::{IndexMatrix, WeightMatrix, is_square};
use crate::metro_direction::{build_metro_direction, is_direction_matrix};
use crate::metro_lines::{MetroLines, MetroLinesSet};
use crate::path_iterator::{path, valid_next};
use vstd::prelude::*;

verus! {

/// Tells a passenger at `start` bound for `dest` the terminus toward which
/// the train to board runs.
pub struct MetroDirection {
    wrap: IndexMatrix,
}

impl View for MetroDirection {
    type V = Seq<Seq<usize>>;

    closed spec fn view(&self) -> Seq<Seq<usize>> {
        self.wrap@
    }
}

/// Wraps a direction matrix.
pub fn new_metro_direction(mat: IndexMatrix) -> (r: MetroDirection)
    ensures
        r@ == mat@,
{
    MetroDirection { wrap: mat }
}

impl MetroDirection {
    pub fn get_direction(&self, start: usize, dest: usize) -> (r: usize)
        requires
            start < self@.len(),
            dest < self@[start as int].len(),
        ensures
            r == self@[start as int][dest as int],
    {
        self.wrap.get(start, dest)
    }

    /// The table row by row.
    pub fn to_rows(&self) -> (r: Vec<Vec<usize>>)
        ensures
            crate::matrix::vec_rows(r@) == self@,
    {
        self.wrap.to_rows()
    }
}

/// Tells a passenger at `start` bound for `dest` the next station to alight
/// at: `dest` on a shared line, else the next interchange.
pub struct MetroInterchange {
    wrap: IndexMatrix,
}

impl View for MetroInterchange {
    type V = Seq<Seq<usize>>;

    closed spec fn view(&self) -> Seq<Seq<usize>> {
        self.wrap@
    }
}

/// Wraps an interchange-path matrix.
pub fn new_metro_interchange(mat: IndexMatrix) -> (r: MetroInterchange)
    ensures
        r@ == mat@,
{
    MetroInterchange { wrap: mat }
}

impl MetroInterchange {
    pub fn next_station(&self, start: usize, dest: usize) -> (r: usize)
        requires
            start < self@.len(),
            dest < self@[start as int].len(),
        ensures
            r == self@[start as int][dest as int],
    {
        self.wrap.get(start, dest)
    }

    /// The table row by row.
    pub fn to_rows(&self) -> (r: Vec<Vec<usize>>)
        ensures
            crate::matrix::vec_rows(r@) == self@,
    {
        self.wrap.to_rows()
    }
}

/// The direction matrix and the interchange-path matrix of a network.
pub struct PathMatrix {
    pub mdm: IndexMatrix,
    pub ipm: IndexMatrix,
}

/// `lines` with termini fit a network of `n` stations.
pub open spec fn lines_fit(lines: (Seq<Seq<usize>>, Seq<(usize, usize)>), n: nat) -> bool {
    &&& lines.1.len() == lines.0.len()
    &&& forall|k: int| 0 <= k < lines.1.len() ==> (#[trigger] lines.1[k]).0 < n && lines.1[k].1 < n
}

impl PathMatrix {
    /// Builds the interchange-path matrix, then the direction matrix from it.
    pub fn init_matrices(next_mat: &IndexMatrix, dist_mat: &WeightMatrix, metro_lines: &MetroLines) -> (r: Self)
        requires
            valid_next(next_mat@),
            is_square(dist_mat@, next_mat@.len()),
            next_mat@.len() * next_mat@.len() <= isize::MAX,
            lines_fit(metro_lines@, next_mat@.len()),
        ensures
            is_interchange_matrix(r.ipm@, next_mat@, metro_lines@.0),
            is_direction_matrix(r.mdm@, metro_lines@.0, metro_lines@.1, dist_mat@, r.ipm@),
    {
        let line_set = MetroLinesSet::from(metro_lines);
        let ipm = build_interchange_path_matrix(next_mat, &line_set);
        proof {
            lemma_interchange_matrix_entries(ipm@, next_mat@, line_set@.0);
        }
        let mdm = build_metro_direction(next_mat, dist_mat, &line_set, &ipm);
        Self { ipm, mdm }
    }

    /// As `init_matrices`, building the interchange-path matrix with
    /// remembered walks.
    pub fn fast_init_matrices(next_mat: &IndexMatrix, dist_mat: &WeightMatrix, metro_lines: &MetroLines) -> (r: Self)
        requires
            valid_next(next_mat@),
            is_square(dist_mat@, next_mat@.len()),
            next_mat@.len() * next_mat@.len() <= isize::MAX,
            lines_fit(metro_lines@, next_mat@.len()),
        ensures
            is_interchange_matrix(r.ipm@, next_mat@, metro_lines@.0),
            is_direction_matrix(r.mdm@, metro_lines@.0, metro_lines@.1, dist_mat@, r.ipm@),
    {
        let line_set = MetroLinesSet::from(metro_lines);
        let ipm = fast_build_interchange_path_matrix(next_mat, &line_set);
        proof {
            lemma_interchange_matrix_entries(ipm@, next_mat@, line_set@.0);
        }
        let mdm = build_metro_direction(next_mat, dist_mat, &line_set, &ipm);
        Self { ipm, mdm }
    }
}

/// The routing tables of a network whose lines are the shortest paths
/// between their terminus pairs: the lines, the direction matrix and the
/// interchange-path matrix, over the distances and successors that
/// Floyd–Warshall computes from `adj_mat`.
pub fn build_directions(adj_mat: WeightMatrix, terminus: &[(usize, usize)]) -> (r: (
    MetroLines,
    MetroDirection,
    MetroInterchange,
))
    requires
        is_square(adj_mat@, adj_mat@.len()),
        adj_mat@.len() * adj_mat@.len() <= isize::MAX,
        forall|k: int|
            0 <= k < terminus@.len() ==> (#[trigger] terminus@[k]).0 < adj_mat@.len()
                && terminus@[k].1 < adj_mat@.len(),
    ensures
        r.0@.1 == terminus@,
        ({
            let next = fw_result(adj_mat@).1;
            let dist = fw_result(adj_mat@).0;
            &&& r.0@.0.len() == terminus@.len()
            &&& (forall|k: int|
                0 <= k < terminus@.len() ==> #[trigger] r.0@.0[k] == path(
                    next,
                    terminus@[k].0,
                    terminus@[k].1,
                ))
            &&& is_interchange_matrix(r.2@, next, r.0@.0)
            &&& is_direction_matrix(r.1@, r.0@.0, terminus@, dist, r.2@)
        }),
{
    let n = adj_mat.nrows();
    let (dist, next) = all_shortest_path(adj_mat);
    let metro_lines = MetroLines::from_successor_matrix(&next, terminus);
    let path_mat = PathMatrix::init_matrices(&next, &dist, &metro_lines);
    let PathMatrix { mdm, ipm } = path_mat;
    let d = new_metro_direction(mdm);
    let i = new_metro_interchange(ipm);
    assert(is_square(dist@, n as nat));
    (metro_lines, d, i)
}

/// The routing tables of a network whose lines are given station by station.
pub fn build_directions_from_lines(adj_mat: WeightMatrix, metro_lines: &MetroLines) -> (r: (
    MetroDirection,
    MetroInterchange,
))
    requires
        is_square(adj_mat@, adj_mat@.len()),
        adj_mat@.len() * adj_mat@.len() <= isize::MAX,
        lines_fit(metro_lines@, adj_mat@.len()),
    ensures
        ({
            let next = fw_result(adj_mat@).1;
            let dist = fw_result(adj_mat@).0;
            &&& is_interchange_matrix(r.1@, next, metro_lines@.0)
            &&& is_direction_matrix(r.0@, metro_lines@.0, metro_lines@.1, dist, r.1@)
        }),
{
    let (dist, next) = all_shortest_path(adj_mat);
    let path_mat = PathMatrix::init_matrices(&next, &dist, metro_lines);
    let PathMatrix { mdm, ipm } = path_mat;
    (new_metro_direction(mdm), new_metro_interchange(ipm))
}

} // verus!
