use metro_sim::all_shortest_path::INF;
use metro_sim::build_directions::{
    build_directions, new_metro_direction, new_metro_interchange, MetroDirection, MetroInterchange,
};
use metro_sim::engine::engine_step;
use metro_sim::fast_line_factory::{fast_line_factory, FastLineFactoryConfig};
use metro_sim::line::Line;
use metro_sim::matrix::{IndexMatrix, WeightMatrix};
use metro_sim::passenger::{admit_traffic, Passenger, PassengerFactory, TrafficGenerator};
use metro_sim::station::{station_list_factory, Station};

/// `count` passengers at step `at`, none at other steps.
struct Burst {
    at: u32,
    count: u32,
}

impl TrafficGenerator for Burst {
    fn next_traffic_flow(&self, step: u32) -> u32 {
        if step == self.at {
            self.count
        } else {
            0
        }
    }
}

fn adjacency(n: usize, arcs: &[(usize, usize)]) -> WeightMatrix {
    let mut rows = vec![vec![INF; n]; n];
    for (i, row) in rows.iter_mut().enumerate() {
        row[i] = 0;
    }
    for &(a, b) in arcs {
        rows[a][b] = 1;
        rows[b][a] = 1;
    }
    WeightMatrix::from_rows(&rows)
}

fn sample_tables() -> (MetroDirection, MetroInterchange) {
    let arcs = [(0, 1), (1, 2), (2, 3), (2, 5), (2, 7), (3, 4), (7, 8), (5, 6)];
    let terminus = vec![(0, 6), (4, 8)];
    let (_lines, d, i) = build_directions(adjacency(9, &arcs), &terminus);
    (d, i)
}

fn station_total(stations: &[Station<()>]) -> usize {
    stations.iter().map(|s| s.waiting_count()).sum()
}

fn train_total(lines: &[Line<()>]) -> usize {
    lines
        .iter()
        .map(|l| l.fleet().running_cars_iter().iter().map(|c| c.passenger_count()).sum::<usize>())
        .sum()
}

fn only<T>(n: usize, from: usize, to: usize, g: T) -> Vec<Vec<Option<T>>> {
    let mut rows: Vec<Vec<Option<T>>> = (0..n).map(|_| (0..n).map(|_| None).collect()).collect();
    rows[from][to] = Some(g);
    rows
}

#[test]
fn passenger_test_passenger_count() {
    let dir = new_metro_direction(IndexMatrix::from_rows(&vec![vec![0, 0, 0], vec![0, 0, 0], vec![0, 0, 0]]));
    let inter = new_metro_interchange(IndexMatrix::from_rows(&vec![vec![0, 1, 2], vec![0, 1, 2], vec![0, 1, 2]]));
    let traffic_generator: Vec<Vec<Option<u32>>> = vec![
        vec![None, Some(4), Some(5)],
        vec![Some(3), None, Some(2)],
        vec![Some(1), Some(2), None],
    ];
    let mut stations: Vec<Station<()>> = station_list_factory(3, &dir, &inter);
    let pass_factory = PassengerFactory::new(traffic_generator);
    let generated = pass_factory.generate_traffic(0, &mut stations, &mut ());
    assert_eq!(generated, 17);
    assert_eq!(stations.len(), 3);
    assert_eq!(stations[0].waiting_count(), 9);
    assert_eq!(stations[1].waiting_count(), 5);
    assert_eq!(stations[2].waiting_count(), 3);
}

#[test]
fn static_traffic_fills_stations_with_its_sum() {
    let (d, i) = sample_tables();
    let mut stations: Vec<Station<()>> = station_list_factory(9, &d, &i);
    let m: Vec<Vec<u32>> = (0..9).map(|r| (0..9).map(|c| ((r + 2 * c) % 4) as u32).collect()).collect();
    let total: u32 = m.iter().flatten().sum();
    let gens: Vec<Vec<Option<u32>>> = m.iter().map(|r| r.iter().map(|v| Some(*v)).collect()).collect();
    let factory = PassengerFactory::new(gens);
    let generated = factory.generate_traffic(3, &mut stations, &mut ());
    assert_eq!(generated, total as u128);
    assert_eq!(station_total(&stations), total as usize);
    for (r, row) in m.iter().enumerate() {
        assert_eq!(stations[r].waiting_count(), row.iter().sum::<u32>() as usize);
    }
}

#[test]
fn waiting_passengers_are_bucketed_by_direction() {
    let (d, i) = sample_tables();
    let mut stations: Vec<Station<()>> = station_list_factory(9, &d, &i);
    for dest in [0, 6, 4, 5, 8] {
        stations[1].enter_passenger(Passenger::new(0, 1, dest, ()));
    }
    assert_eq!(stations[1].get_waiting(0).len(), 1);
    assert_eq!(stations[1].get_waiting(6).len(), 4);
    for b in [0, 6] {
        for p in stations[1].get_waiting(b) {
            assert_eq!(p.get_next_direction(), b);
        }
    }
    let p = &stations[1].get_waiting(6)[1];
    assert_eq!(p.get_destination(), 4);
    assert_eq!(p.get_next_stop(), 2);
}

#[test]
fn single_line_single_train_delivers_passenger() {
    let terminus = vec![(0, 2)];
    let (_lines, d, i) = build_directions(adjacency(3, &[(0, 1), (1, 2)]), &terminus);
    let mut stations: Vec<Station<()>> = station_list_factory(3, &d, &i);
    let mut lines: Vec<Line<()>> = vec![fast_line_factory(
        FastLineFactoryConfig::new(vec![0, 1, 2], 2, vec![3, 3], 6, 1, 0),
        3,
    )];
    let factory = PassengerFactory::new(only(3, 0, 2, Burst { at: 0, count: 1 }));
    for step in 0..40 {
        engine_step(step, &factory, &mut stations, &mut lines, &mut ());
    }
    assert_eq!(stations[2].get_waiting(2).len(), 1);
    assert_eq!(stations[2].get_waiting(2)[0].get_destination(), 2);
    assert_eq!(station_total(&stations), 1);
    assert_eq!(stations[0].waiting_count(), 0);
    assert_eq!(train_total(&lines), 0);
}

#[test]
fn transfer_between_two_lines() {
    let (d, i) = sample_tables();
    let mut stations: Vec<Station<()>> = station_list_factory(9, &d, &i);
    let mut lines: Vec<Line<()>> = vec![
        fast_line_factory(FastLineFactoryConfig::new(vec![0, 1, 2, 5, 6], 2, vec![1, 1, 1, 1], 6, 1, 0), 9),
        fast_line_factory(FastLineFactoryConfig::new(vec![4, 3, 2, 7, 8], 2, vec![5, 5, 5, 5], 6, 1, 0), 9),
    ];
    let factory = PassengerFactory::new(only(9, 0, 4, Burst { at: 0, count: 1 }));
    let mut seen_at_interchange = false;
    for step in 0..120 {
        engine_step(step, &factory, &mut stations, &mut lines, &mut ());
        if stations[2].get_waiting(4).len() == 1 {
            let p = &stations[2].get_waiting(4)[0];
            assert_eq!(p.get_next_stop(), 4);
            seen_at_interchange = true;
        }
    }
    assert!(seen_at_interchange);
    assert_eq!(stations[4].get_waiting(4).len(), 1);
    assert_eq!(stations[4].get_waiting(4)[0].get_destination(), 4);
    assert_eq!(station_total(&stations) + train_total(&lines), 1);
}

#[test]
fn passengers_are_never_lost_or_duplicated() {
    let terminus = vec![(0, 2)];
    let (_lines, d, i) = build_directions(adjacency(3, &[(0, 1), (1, 2)]), &terminus);
    let mut stations: Vec<Station<()>> = station_list_factory(3, &d, &i);
    let mut lines: Vec<Line<()>> = vec![fast_line_factory(
        FastLineFactoryConfig::new(vec![0, 1, 2], 2, vec![3, 3], 6, 1, 0),
        3,
    )];
    let gens: Vec<Vec<Option<Burst>>> = (0..3)
        .map(|r| {
            (0..3)
                .map(|c| if r != c { Some(Burst { at: (r + c) as u32, count: 2 }) } else { None })
                .collect()
        })
        .collect();
    let factory = PassengerFactory::new(gens);
    let mut expected = 0usize;
    for step in 0..60 {
        let generated = engine_step(step, &factory, &mut stations, &mut lines, &mut ());
        expected += generated as usize;
        assert_eq!(station_total(&stations) + train_total(&lines), expected);
    }
    assert_eq!(expected, 12);
}

#[test]
fn admitted_flows_fill_each_station_with_its_row() {
    let (d, i) = sample_tables();
    let mut stations: Vec<Station<()>> = station_list_factory(9, &d, &i);
    let m: Vec<Vec<u32>> = (0..9).map(|r| (0..9).map(|c| ((3 * r + c) % 5) as u32).collect()).collect();
    let entered = admit_traffic(&m, &mut stations, &mut ());
    let total: u32 = m.iter().flatten().sum();
    assert_eq!(entered, total as u128);
    for (r, row) in m.iter().enumerate() {
        assert_eq!(stations[r].waiting_count(), row.iter().sum::<u32>() as usize);
    }
    // a second round adds the same again
    let entered = admit_traffic(&m, &mut stations, &mut ());
    assert_eq!(entered, total as u128);
    assert_eq!(station_total(&stations), 2 * total as usize);
}

#[test]
fn draw_flows_reads_generators() {
    let gens: Vec<Vec<Option<u32>>> = vec![vec![None, Some(4)], vec![Some(3), None]];
    let factory = PassengerFactory::new(gens);
    assert_eq!(factory.draw_flows(7), vec![vec![0, 4], vec![3, 0]]);
}
