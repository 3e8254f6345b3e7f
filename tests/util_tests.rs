use metro_sim::all_shortest_path::INF;
use metro_sim::counter::{Counter, CyclicCounter};
use metro_sim::graph::{arcs_to_matrix, to_distance_matrix, AdjacentList, Arc, Graph};
use metro_sim::cross_index_iterator::CrossIndexIterator;
use metro_sim::index_list::IndexList;
use metro_sim::mixed_iterator::{MixingIterator, MixingIteratorItem};

fn buckets(list: &IndexList<usize, usize>, n: usize) -> Vec<Vec<usize>> {
    (0..n).map(|i| list.get_list(i).clone()).collect()
}

#[test]
fn test_counter() {
    let mut counter = Counter::new(3);
    assert!(!counter.step());
    assert!(!counter.step());
    assert!(!counter.step());

    assert!(counter.step());
    assert_eq!(counter.get_current(), 3);

    assert!(counter.step());
    assert_eq!(counter.get_current(), 3);

    assert!(counter.step());
    assert_eq!(counter.get_current(), 3);

    counter.reset();
    assert!(!counter.step());
    assert!(!counter.step());
    assert!(!counter.step());
    assert!(counter.step());
    assert_eq!(counter.get_current(), 3);
}

#[test]
fn test_cyclic_counter() {
    let mut counter = CyclicCounter::new(5);
    for _ in 0..3 {
        assert!(!counter.count());
        assert!(!counter.count());
        assert!(!counter.count());
        assert!(!counter.count());
        assert!(!counter.count());
        assert!(counter.count());
    }
}

#[test]
fn test_cross_index_iterator() {
    let mut cii = CrossIndexIterator::new(3);
    let mut res: Vec<(usize, usize)> = Vec::new();
    while let Some(p) = cii.next() {
        res.push(p);
    }
    let correct = vec![(0, 1), (0, 2), (1, 2)];
    assert_eq!(correct, res);
}

#[test]
fn cross_index_iterator_of_one_is_empty() {
    let mut cii = CrossIndexIterator::new(1);
    assert_eq!(cii.next(), None);
    assert_eq!(cii.next(), None);
}

#[test]
fn test_index_list() {
    let mut index_list = IndexList::new(10, 10);

    index_list.push(6);
    index_list.push(16);
    index_list.push(26);
    index_list.push(27);

    let correct = vec![
        vec![6],
        vec![16],
        vec![26, 27],
        vec![],
        vec![],
        vec![],
        vec![],
        vec![],
        vec![],
        vec![],
    ];
    assert_eq!(correct, buckets(&index_list, 10));
    assert_eq!(index_list.len(), 4);
}

#[test]
fn test_index_list_append() {
    let mut index_list = IndexList::new(10, 10);
    let mut values = vec![16, 24, 14, 78, 9, 3];
    index_list.append(&mut values);
    assert!(values.is_empty());

    // items keep their relative order inside each bucket
    let correct = vec![
        vec![9, 3],
        vec![16, 14],
        vec![24],
        vec![],
        vec![],
        vec![],
        vec![],
        vec![78],
        vec![],
        vec![],
    ];
    assert_eq!(correct, buckets(&index_list, 10));
}

#[test]
fn test_index_list_append_iter() {
    let mut index_list = IndexList::new(10, 10);
    let values = vec![16, 24, 14, 78, 9, 3];
    index_list.append_iter(values);

    let correct = vec![
        vec![9, 3],
        vec![16, 14],
        vec![24],
        vec![],
        vec![],
        vec![],
        vec![],
        vec![78],
        vec![],
        vec![],
    ];
    assert_eq!(correct, buckets(&index_list, 10));
}

#[test]
fn index_list_take_empties_bucket() {
    let mut index_list = IndexList::new(3, 10);
    index_list.push(12);
    index_list.push(15);
    let taken = index_list.take_list(1);
    assert_eq!(taken, vec![12, 15]);
    assert!(index_list.is_empty());
}

#[test]
fn test_mixing_itertor() {
    let a = vec![4, 5, 6];
    let b = vec![2., 3.];

    let mut iterator = MixingIterator::new(a, b);
    assert_eq!(iterator.next(), Some(MixingIteratorItem::T(4)));
    assert_eq!(iterator.next(), Some(MixingIteratorItem::K(2.)));
    assert_eq!(iterator.next(), Some(MixingIteratorItem::T(5)));
    assert_eq!(iterator.next(), Some(MixingIteratorItem::K(3.)));
    assert_eq!(iterator.next(), Some(MixingIteratorItem::T(6)));
    assert_eq!(iterator.next(), None);
}

#[test]
fn mixing_stops_when_second_runs_out() {
    let mut iterator = MixingIterator::new(vec![1, 2, 3], vec![10]);
    assert_eq!(iterator.next(), Some(MixingIteratorItem::T(1)));
    assert_eq!(iterator.next(), Some(MixingIteratorItem::K(10)));
    assert_eq!(iterator.next(), Some(MixingIteratorItem::T(2)));
    assert_eq!(iterator.next(), None);
}

#[test]
fn get_steps_counts_minutes() {
    assert_eq!(metro_sim::get_steps(5, 21, 2), 1920);
    assert_eq!(metro_sim::get_steps(4, 6, 0), 0);
}

#[test]
fn arcs_to_matrix_of_sample_network() {
    let arcs = vec![(0, 1), (1, 2), (2, 3), (2, 5), (2, 7), (3, 4), (7, 8), (5, 6)];
    let rows = arcs_to_matrix(&arcs).to_rows();
    assert_eq!(rows.len(), 9);
    assert_eq!(rows[0], vec![0, 1, INF, INF, INF, INF, INF, INF, INF]);
    assert_eq!(rows[2], vec![INF, 1, 0, 1, INF, 1, INF, 1, INF]);
    assert_eq!(rows[8][7], 1);
    assert_eq!(rows[6][6], 0);
}

#[test]
fn graph_to_distance_matrix() {
    let list = vec![
        vec![Arc { info: (), next: 1, weight: 4 }],
        vec![Arc { info: (), next: 2, weight: 7 }, Arc { info: (), next: 0, weight: 2 }],
        vec![],
    ];
    let g = Graph::new(vec!['a', 'b', 'c'], AdjacentList { list });
    assert_eq!(g.len(), 3);
    assert!(!g.is_empty());
    let rows = to_distance_matrix(&g).to_rows();
    assert_eq!(rows, vec![vec![0, 4, INF], vec![2, 0, 7], vec![INF, INF, 0]]);
}
