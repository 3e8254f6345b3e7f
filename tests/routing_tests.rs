use metro_sim::all_shortest_path::{all_shortest_path, init_matrixes, INF};
use metro_sim::build_directions::{build_directions, PathMatrix};
use metro_sim::interchange_path::{
    build_interchange_path_matrix, fast_build_interchange_path_matrix,
    par_build_interchange_path_matrix,
};
use metro_sim::matrix::{IndexMatrix, WeightMatrix};
use metro_sim::metro_direction::build_metro_direction;
use metro_sim::metro_lines::{MetroLines, MetroLinesSet};
use metro_sim::path_iterator::PathIterator;
use std::collections::HashSet;

fn make_correct_direction_matrix() -> Vec<Vec<usize>> {
    vec![
        vec![0, 6, 6, 6, 6, 6, 6, 6, 6],
        vec![0, 1, 6, 6, 6, 6, 6, 6, 6],
        vec![0, 0, 2, 4, 4, 6, 6, 8, 8],
        vec![8, 8, 8, 3, 4, 8, 8, 8, 8],
        vec![8, 8, 8, 8, 4, 8, 8, 8, 8],
        vec![0, 0, 0, 0, 0, 5, 6, 0, 0],
        vec![0, 0, 0, 0, 0, 0, 6, 0, 0],
        vec![4, 4, 4, 4, 4, 4, 4, 7, 8],
        vec![4, 4, 4, 4, 4, 4, 4, 4, 8],
    ]
}

fn make_correct_interchange_path() -> Vec<Vec<usize>> {
    vec![
        vec![0, 1, 2, 2, 2, 5, 6, 2, 2],
        vec![0, 1, 2, 2, 2, 5, 6, 2, 2],
        vec![0, 1, 2, 3, 4, 5, 6, 7, 8],
        vec![2, 2, 2, 3, 4, 2, 2, 7, 8],
        vec![2, 2, 2, 3, 4, 2, 2, 7, 8],
        vec![0, 1, 2, 2, 2, 5, 6, 2, 2],
        vec![0, 1, 2, 2, 2, 5, 6, 2, 2],
        vec![2, 2, 2, 3, 4, 2, 2, 7, 8],
        vec![2, 2, 2, 3, 4, 2, 2, 7, 8],
    ]
}

fn make_next_matrix() -> IndexMatrix {
    IndexMatrix::from_rows(&vec![
        vec![0, 1, 1, 1, 1, 1, 1, 1, 1],
        vec![0, 1, 2, 2, 2, 2, 2, 2, 2],
        vec![1, 1, 2, 3, 3, 5, 5, 7, 7],
        vec![2, 2, 2, 3, 4, 2, 2, 2, 2],
        vec![3, 3, 3, 3, 4, 3, 3, 3, 3],
        vec![2, 2, 2, 2, 2, 5, 6, 2, 2],
        vec![5, 5, 5, 5, 5, 5, 6, 5, 5],
        vec![2, 2, 2, 2, 2, 2, 2, 7, 8],
        vec![7, 7, 7, 7, 7, 7, 7, 7, 8],
    ])
}

fn make_dist_matrix() -> WeightMatrix {
    WeightMatrix::from_rows(&vec![
        vec![0, 1, 2, 3, 4, 3, 4, 3, 4],
        vec![1, 0, 1, 2, 3, 2, 3, 2, 3],
        vec![2, 1, 0, 1, 2, 1, 2, 1, 2],
        vec![3, 2, 1, 0, 1, 2, 3, 2, 3],
        vec![4, 3, 2, 1, 0, 3, 4, 3, 4],
        vec![3, 2, 1, 2, 3, 0, 1, 2, 3],
        vec![4, 3, 2, 3, 4, 1, 0, 3, 4],
        vec![3, 2, 1, 2, 3, 2, 3, 0, 1],
        vec![4, 3, 2, 3, 4, 3, 4, 1, 0],
    ])
}

fn make_terminus() -> Vec<(usize, usize)> {
    vec![(0, 6), (4, 8)]
}

fn make_adjacency() -> WeightMatrix {
    let arcs = [(0, 1), (1, 2), (2, 3), (2, 5), (2, 7), (3, 4), (7, 8), (5, 6)];
    let mut rows = vec![vec![INF; 9]; 9];
    for (i, row) in rows.iter_mut().enumerate() {
        row[i] = 0;
    }
    for (a, b) in arcs {
        rows[a][b] = 1;
        rows[b][a] = 1;
    }
    WeightMatrix::from_rows(&rows)
}

fn get_graph() -> WeightMatrix {
    WeightMatrix::from_rows(&vec![
        vec![0, INF, -2, INF],
        vec![4, 0, 3, INF],
        vec![INF, INF, 0, 2],
        vec![INF, -1, INF, 0],
    ])
}

fn line_set(next: &IndexMatrix) -> MetroLinesSet {
    let terminus = make_terminus();
    let lines = MetroLines::from_successor_matrix(next, &terminus);
    MetroLinesSet::from(&lines)
}

#[test]
fn test_all_shortest_path() {
    let (dist, next) = all_shortest_path(get_graph());
    let expected_dist = vec![vec![0, -1, -2, 0], vec![4, 0, 2, 4], vec![5, 1, 0, 2], vec![3, -1, 1, 0]];
    let expected_next = vec![vec![0, 2, 2, 2], vec![0, 1, 0, 0], vec![3, 3, 2, 3], vec![1, 1, 1, 3]];
    assert_eq!(dist.to_rows(), expected_dist);
    assert_eq!(next.to_rows(), expected_next);
}

#[test]
fn test_next_init() {
    let (dist, next) = init_matrixes(get_graph());
    assert_eq!(dist.to_rows(), get_graph().to_rows());
    let expected_next = vec![vec![0, 0, 2, 0], vec![0, 1, 2, 0], vec![0, 0, 2, 3], vec![0, 1, 0, 3]];
    assert_eq!(expected_next, next.to_rows());
}

#[test]
fn shortest_paths_of_the_sample_network() {
    let (dist, next) = all_shortest_path(make_adjacency());
    assert_eq!(dist.to_rows(), make_dist_matrix().to_rows());
    let mut path = PathIterator::new(0, 6, &next);
    let mut nodes = Vec::new();
    while let Some(n) = path.next() {
        nodes.push(n);
    }
    assert_eq!(nodes, vec![0, 1, 2, 5, 6]);
}

#[test]
fn test_path_iterator() {
    let next_mat = make_next_matrix();
    let mut path_iter = PathIterator::new(0, 6, &next_mat);
    assert_eq!(path_iter.next(), Some(0));
    assert_eq!(path_iter.next(), Some(1));
    assert_eq!(path_iter.next(), Some(2));
    assert_eq!(path_iter.next(), Some(5));
    assert_eq!(path_iter.next(), Some(6));
    assert_eq!(path_iter.next(), None);
}

#[test]
fn path_iterator_to_vector() {
    let next_mat = make_next_matrix();
    assert_eq!(PathIterator::new(4, 8, &next_mat).to_vector(), vec![4, 3, 2, 7, 8]);
    assert_eq!(PathIterator::new(3, 3, &next_mat).to_vector(), Vec::<usize>::new());
}

#[test]
fn path_iterator_to_set() {
    let next_mat = make_next_matrix();
    let set = PathIterator::new(6, 0, &next_mat).to_set();
    assert_eq!(set, HashSet::from([0, 1, 2, 5, 6]));
}

#[test]
fn fast_path_matrix_build_matches() {
    let next = make_next_matrix();
    let dist = make_dist_matrix();
    let term = make_terminus();
    let metro_lines = MetroLines::from_successor_matrix(&next, &term);
    let path_matrix = PathMatrix::fast_init_matrices(&next, &dist, &metro_lines);
    assert_eq!(path_matrix.ipm.to_rows(), make_correct_interchange_path());
    assert_eq!(path_matrix.mdm.to_rows(), make_correct_direction_matrix());
}

#[test]
fn test_line_construction() {
    let next = make_next_matrix();
    let terminus = make_terminus();
    let metro_lines = MetroLines::from_successor_matrix(&next, &terminus);
    let correct_lines = vec![vec![0, 1, 2, 5, 6], vec![4, 3, 2, 7, 8]];
    assert_eq!(*metro_lines.line_iter(), correct_lines);
}

#[test]
fn lines_test_line_generation() {
    let next = make_next_matrix();
    let terminus = make_terminus();
    let metro_lines = MetroLines::from_successor_matrix(&next, &terminus);
    let lines: Vec<HashSet<usize>> = metro_lines
        .line_iter()
        .iter()
        .map(|l| l.iter().copied().collect())
        .collect();
    let correct_line_1 = HashSet::from([0, 1, 2, 5, 6]);
    let correct_line_2 = HashSet::from([4, 3, 2, 7, 8]);
    let expected = vec![correct_line_1, correct_line_2];
    assert_eq!(lines, expected);
}

#[test]
fn metro_line_set_test_line_generation() {
    let next = make_next_matrix();
    let set = line_set(&next);
    let lines: Vec<HashSet<usize>> = set
        .line_iterator()
        .iter()
        .map(|l| l.iter().copied().collect())
        .collect();
    let expected = vec![HashSet::from([0, 1, 2, 5, 6]), HashSet::from([4, 3, 2, 7, 8])];
    assert_eq!(lines, expected);
}

fn check_same_line(metro_lines: &MetroLinesSet) {
    let line_one = [0, 1, 2, 5, 6];
    let line_two = [4, 3, 2, 7, 8];
    for i in &line_one {
        for j in &line_one {
            assert!(metro_lines.is_same_line(*i, *j))
        }
    }

    for i in &line_two {
        for j in &line_two {
            assert!(metro_lines.is_same_line(*i, *j))
        }
    }
    for i in &line_one {
        for j in &line_two {
            // 2 is the interchange station: it is on both lines
            if *i != 2 && *j != 2 {
                assert!(!metro_lines.is_same_line(*i, *j), "{} {}", i, j)
            }
        }
    }
}

#[test]
fn lines_test_same_line_check() {
    let next = make_next_matrix();
    check_same_line(&line_set(&next));
}

#[test]
fn metro_line_set_test_same_line_check() {
    let next = make_next_matrix();
    let terminus = make_terminus();
    let lines = MetroLines::from_successor_matrix(&next, &terminus);
    check_same_line(&MetroLinesSet::from(&lines));
}

#[test]
fn test_find_interchanges() {
    let next = make_next_matrix();
    let interchanges = line_set(&next).find_interchanges();
    let correct: HashSet<usize> = vec![2].into_iter().collect();
    assert_eq!(interchanges, correct);
}

#[test]
fn test_build_interchange_path_matrix() {
    let next = make_next_matrix();
    let ipm = build_interchange_path_matrix(&next, &line_set(&next));
    assert_eq!(ipm.to_rows(), make_correct_interchange_path());
}

#[test]
fn test_fast_build_interchange_path_matrix() {
    let next = make_next_matrix();
    let ipm = fast_build_interchange_path_matrix(&next, &line_set(&next));
    assert_eq!(ipm.to_rows(), make_correct_interchange_path());
}

#[test]
fn test_par_build_interchange_path_matrix() {
    let next = make_next_matrix();
    let ipm = par_build_interchange_path_matrix(&next, &line_set(&next));
    assert_eq!(ipm.to_rows(), make_correct_interchange_path());
}

#[test]
fn interchange_builders_agree_on_a_three_line_network() {
    // a star: lines 0-1-2, 3-1-4 and 5-4-6 share stations 1 and 4
    let arcs = [(0, 1), (1, 2), (3, 1), (1, 4), (5, 4), (4, 6)];
    let mut rows = vec![vec![INF; 7]; 7];
    for (i, row) in rows.iter_mut().enumerate() {
        row[i] = 0;
    }
    for (a, b) in arcs {
        rows[a][b] = 1;
        rows[b][a] = 1;
    }
    let (_dist, next) = all_shortest_path(WeightMatrix::from_rows(&rows));
    let terminus = vec![(0, 2), (3, 4), (5, 6)];
    let lines = MetroLines::from_successor_matrix(&next, &terminus);
    let set = MetroLinesSet::from(&lines);
    let a = build_interchange_path_matrix(&next, &set).to_rows();
    let b = fast_build_interchange_path_matrix(&next, &set).to_rows();
    let c = par_build_interchange_path_matrix(&next, &set).to_rows();
    assert_eq!(a, b);
    assert_eq!(a, c);
    assert_eq!(a[0][6], 1);
}

#[test]
fn test_metro_direction_matrix() {
    let next = make_next_matrix();
    let dist = make_dist_matrix();
    let ipm = IndexMatrix::from_rows(&make_correct_interchange_path());
    let direction = build_metro_direction(&next, &dist, &line_set(&next), &ipm);
    assert_eq!(direction.to_rows(), make_correct_direction_matrix());
}

#[test]
fn test_path_matrix_build() {
    let next = make_next_matrix();
    let dist = make_dist_matrix();
    let term = make_terminus();
    let metro_lines = MetroLines::from_successor_matrix(&next, &term);
    let path_matrix = PathMatrix::init_matrices(&next, &dist, &metro_lines);
    assert_eq!(path_matrix.ipm.to_rows(), make_correct_interchange_path());
    assert_eq!(path_matrix.mdm.to_rows(), make_correct_direction_matrix());
}

#[test]
fn known_directions_and_interchanges() {
    let terminus = make_terminus();
    let (_lines, direction, interchange) = build_directions(make_adjacency(), &terminus);
    assert_eq!(interchange.next_station(0, 4), 2);
    assert_eq!(direction.get_direction(0, 4), 6);
    assert_eq!(direction.get_direction(4, 0), 8);
    assert_eq!(direction.to_rows(), make_correct_direction_matrix());
    assert_eq!(interchange.to_rows(), make_correct_interchange_path());
}

#[test]
fn diagonal_of_routing_tables() {
    let terminus = make_terminus();
    let (_lines, direction, interchange) = build_directions(make_adjacency(), &terminus);
    for s in 0..9 {
        assert_eq!(direction.get_direction(s, s), s);
        assert_eq!(interchange.next_station(s, s), s);
    }
}
