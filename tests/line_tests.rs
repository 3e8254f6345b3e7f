use metro_sim::car::CarLocation;
use metro_sim::fast_line_factory::{fast_line_factory, FastLineFactoryConfig};
use metro_sim::line::{
    Line, LineDirection, NextStepInfo, Railway, Segment, SegmentInfo, SegmentStatus, SegmentType,
    Terminus,
};
use std::collections::HashSet;

fn init_segment_info(stat: SegmentStatus) -> SegmentInfo {
    SegmentInfo {
        kind: SegmentType::Line,
        stat,
        duration: 0,
    }
}

fn init_railway() -> Railway {
    Railway::new(vec![
        Segment::Single(init_segment_info(SegmentStatus::Free)),
        Segment::Single(init_segment_info(SegmentStatus::Occupied)),
        Segment::Single(init_segment_info(SegmentStatus::Occupied)),
    ])
}

fn assert_station_index(line: &Line<()>, car: usize, id: usize, seg: usize, i: usize) {
    let c = &line.fleet().running_cars_iter()[car];
    assert!(c.in_station(), "Iteration: {}", i);
    assert_eq!(c.get_current_station(), id, "Iteration: {}", i);
    assert_eq!(c.get_current_segment(), seg, "Iteration: {}", i);
}

fn assert_line_index(line: &Line<()>, car: usize, id: usize) {
    let c = &line.fleet().running_cars_iter()[car];
    assert!(!c.in_station());
    assert_eq!(c.get_current_segment(), id);
}

fn check_occupied_segment(ids: &[usize], line: &Line<()>) {
    let id_set: HashSet<usize> = ids.iter().copied().collect();
    let railway = line.railway();
    for id in 0..railway.len() {
        let seg = railway.get_segment(id);
        if id_set.contains(&id) {
            assert!(
                !seg.is_free(LineDirection::DirectionA) || !seg.is_free(LineDirection::DirectionB),
                "{}",
                id
            );
        } else {
            assert!(
                seg.is_free(LineDirection::DirectionA) && seg.is_free(LineDirection::DirectionB),
                "{}",
                id
            );
        }
    }
}

fn fast_line(ids: Vec<usize>, dwell: usize, lens: Vec<usize>, split: usize, depo: usize, delay: usize, total: usize) -> Line<()> {
    let cfg = FastLineFactoryConfig::new(ids, dwell, lens, split, depo, delay);
    fast_line_factory(cfg, total)
}

#[test]
fn test_set_free() {
    let mut line = fast_line(vec![0, 1, 2, 3], 6, vec![4, 4, 4], 6, 1, 0, 4);
    line.step();
    for i in 0..6 {
        assert_eq!(line.fleet().len(), 2);
        assert_station_index(&line, 0, 3, 6, i);
        assert_station_index(&line, 1, 0, 0, i);
        line.step();
    }
    line.step();
    check_occupied_segment(&[1, 5], &line);

    for _ in 0..4 {
        line.step();
    }

    line.step();
    check_occupied_segment(&[2, 4], &line);
}

#[test]
fn test_one_train_movement() {
    let mut line = fast_line(vec![0, 1, 2, 3], 6, vec![4, 4, 4], 6, 1, 0, 4);
    line.step();
    assert_eq!(line.fleet().len(), 2);
    for i in 0..6 {
        assert_eq!(line.fleet().len(), 2);
        assert_station_index(&line, 0, 3, 6, i);
        assert_station_index(&line, 1, 0, 0, i);
        line.step();
    }
    line.step();
    for _ in 0..4 {
        line.step();
    }

    line.step();
    for i in 0..6 {
        assert_eq!(line.fleet().len(), 2);
        assert_station_index(&line, 0, 2, 4, i);
        assert_station_index(&line, 1, 1, 2, i);
        line.step();
    }
    line.step();
    for i in 0..4 {
        assert_line_index(&line, 0, 3);
        assert_station_index(&line, 1, 1, 2, i);
        line.step();
    }

    line.step();
    for i in 0..4 {
        assert_station_index(&line, 0, 1, 2, i);
        assert_line_index(&line, 1, 3);
        line.step();
    }

    line.step();
    for i in 0..2 {
        assert_eq!(line.fleet().len(), 2);
        assert_station_index(&line, 0, 1, 2, i);
        assert_station_index(&line, 1, 2, 4, i);
        line.step();
    }
    line.step();

    for i in 0..4 {
        assert_eq!(line.fleet().len(), 2);
        assert_line_index(&line, 0, 1);
        assert_station_index(&line, 1, 2, 4, i);
        line.step();
    }
    line.step();
    for i in 0..4 {
        assert_eq!(line.fleet().len(), 2);
        assert_station_index(&line, 0, 0, 0, i);
        assert_line_index(&line, 1, 5);
        line.step();
    }

    for i in 0..2 {
        assert_eq!(line.fleet().len(), 2);
        assert_station_index(&line, 0, 0, 0, i);
        assert_station_index(&line, 1, 3, 6, i);
        line.step();
    }

    for i in 0..4 {
        assert_eq!(line.fleet().len(), 2);
        assert_line_index(&line, 0, 1);
        assert_station_index(&line, 1, 3, 6, i);
        line.step();
    }
    line.step();

    for i in 0..4 {
        assert_eq!(line.fleet().len(), 2);
        assert_station_index(&line, 0, 1, 2, i);
        assert_line_index(&line, 1, 5);
        line.step();
    }
    line.step();

    for i in 0..2 {
        assert_eq!(line.fleet().len(), 2);
        assert_station_index(&line, 0, 1, 2, i);
        assert_station_index(&line, 1, 2, 4, i);
        line.step();
    }
}

#[test]
fn test_line_step() {
    let mut line = fast_line(vec![0, 1, 2], 6, vec![3, 4], 6, 4, 5, 3);
    assert!(line.fleet().is_empty());
    for _ in 0..5 {
        line.step();
        assert!(line.fleet().is_empty());
    }
    line.step();
    for _ in 0..5 {
        line.step();
        assert_eq!(line.fleet().len(), 2);
    }

    line.step();
    for _ in 0..5 {
        line.step();
        assert_eq!(line.fleet().len(), 4);
    }

    line.step();
    for _ in 0..5 {
        line.step();
        assert_eq!(line.fleet().len(), 6);
    }

    line.step();
    for _ in 0..15 {
        line.step();
        assert_eq!(line.fleet().len(), 8);
    }
}

#[test]
fn line_test_terminus_can_start() {
    // 4 trains in the deposit, 3 steps between two departures
    let mut term = Terminus::new(0, 4, 3);
    for _ in 0..4 {
        assert!(!term.can_start_new_train());
        term.step();

        assert!(!term.can_start_new_train());
        term.step();

        assert!(!term.can_start_new_train());
        term.step();

        assert!(term.can_start_new_train());
        term.step();
        term.add_new_train();
    }

    assert!(!term.can_start_new_train());
    term.step();
    assert!(!term.can_start_new_train());
    term.step();
    assert!(!term.can_start_new_train());
    term.step();
    assert!(!term.can_start_new_train());
    term.step();
    assert!(!term.can_start_new_train());
    term.step();
    assert!(!term.can_start_new_train());
    term.step();
}

#[test]
fn line_text_next_step_railway() {
    let mut railway = init_railway();
    assert!(railway.next_step(0, LineDirection::DirectionB).is_none());
    assert!(railway.next_step(1, LineDirection::DirectionB).is_none());
    let res = railway.next_step(1, LineDirection::DirectionA);
    assert!(matches!(res, Some(NextStepInfo { kind, time, loc })
        if kind == SegmentType::Line
            && time == 0
            && matches!(loc, CarLocation::Segment { index } if index == 0)));
}

#[test]
fn line_test_get_terminus() {
    let railway = init_railway();
    assert_eq!(
        *railway.get_terminus(LineDirection::DirectionA),
        Segment::Single(SegmentInfo {
            stat: SegmentStatus::Free,
            kind: SegmentType::Line,
            duration: 0
        })
    );
    assert_eq!(
        *railway.get_terminus(LineDirection::DirectionB),
        Segment::Single(SegmentInfo {
            stat: SegmentStatus::Occupied,
            kind: SegmentType::Line,
            duration: 0
        })
    );
}

#[test]
fn line_test_check_next_railway() {
    let railway = init_railway();
    assert!(railway.is_free(1, LineDirection::DirectionA));
    assert!(!railway.is_free(1, LineDirection::DirectionB));
}

#[test]
fn line_test_update_railway_position() {
    let mut railway = init_railway();
    let NextStepInfo { kind, time, loc } = railway.update_car_location(1, LineDirection::DirectionA);
    assert_eq!(time, 0);
    assert!(matches!(kind, SegmentType::Line));

    assert!(railway.is_free(0, LineDirection::DirectionB));
    assert!(!railway.is_free(1, LineDirection::DirectionA));
    assert!(!railway.is_free(1, LineDirection::DirectionB));
    assert!(railway.is_free(2, LineDirection::DirectionA));
    assert!(matches!(loc, CarLocation::Segment { index } if index == 0));
}

#[test]
fn line_test_check_free_segment() {
    let single_segment = Segment::Single(init_segment_info(SegmentStatus::Occupied));
    assert!(!single_segment.is_free(LineDirection::DirectionA));
    assert!(!single_segment.is_free(LineDirection::DirectionB));

    let single_segment = Segment::Single(init_segment_info(SegmentStatus::Free));
    assert!(single_segment.is_free(LineDirection::DirectionA));
    assert!(single_segment.is_free(LineDirection::DirectionB));

    let double_segment = Segment::Double(
        init_segment_info(SegmentStatus::Free),
        init_segment_info(SegmentStatus::Occupied),
    );
    assert!(double_segment.is_free(LineDirection::DirectionA));
    assert!(!double_segment.is_free(LineDirection::DirectionB));

    let double_segment = Segment::Double(
        init_segment_info(SegmentStatus::Occupied),
        init_segment_info(SegmentStatus::Free),
    );
    assert!(!double_segment.is_free(LineDirection::DirectionA));
    assert!(double_segment.is_free(LineDirection::DirectionB));
}

#[test]
fn line_test_set_free_segment() {
    let mut single_segment = Segment::Single(init_segment_info(SegmentStatus::Occupied));
    single_segment.set_free(LineDirection::DirectionA);
    assert!(single_segment.is_free(LineDirection::DirectionA));
    assert!(single_segment.is_free(LineDirection::DirectionB));

    let mut double_segment = Segment::Double(
        init_segment_info(SegmentStatus::Occupied),
        init_segment_info(SegmentStatus::Free),
    );

    double_segment.set_free(LineDirection::DirectionA);
    assert!(double_segment.is_free(LineDirection::DirectionA));
    assert!(double_segment.is_free(LineDirection::DirectionB));
}

#[test]
fn line_test_set_occupied_segment() {
    let mut single_segment = Segment::Single(init_segment_info(SegmentStatus::Occupied));
    single_segment.set_occupied(LineDirection::DirectionA);
    assert!(!single_segment.is_free(LineDirection::DirectionA));
    assert!(!single_segment.is_free(LineDirection::DirectionB));

    let mut double_segment = Segment::Double(
        init_segment_info(SegmentStatus::Occupied),
        init_segment_info(SegmentStatus::Free),
    );

    double_segment.set_occupied(LineDirection::DirectionB);
    assert!(!double_segment.is_free(LineDirection::DirectionA));
    assert!(!double_segment.is_free(LineDirection::DirectionB));
}

#[test]
fn double_segment_freeing_one_direction_keeps_other() {
    let mut double_segment = Segment::Double(
        init_segment_info(SegmentStatus::Occupied),
        init_segment_info(SegmentStatus::Occupied),
    );
    double_segment.set_free(LineDirection::DirectionB);
    assert!(!double_segment.is_free(LineDirection::DirectionA));
    assert!(double_segment.is_free(LineDirection::DirectionB));
}

#[test]
fn first_dispatch_puts_two_trains() {
    let mut line = fast_line(vec![0, 1, 2], 2, vec![3, 3], 6, 3, 0, 3);
    assert_eq!(line.fleet().len(), 0);
    line.step();
    assert_eq!(line.fleet().len(), 2);
    let cars = line.fleet().running_cars_iter();
    assert_eq!(cars[0].get_direction(), LineDirection::DirectionA);
    assert_eq!(cars[0].get_current_station(), 2);
    assert_eq!(cars[0].get_destination(), 0);
    assert_eq!(cars[1].get_direction(), LineDirection::DirectionB);
    assert_eq!(cars[1].get_current_station(), 0);
    assert_eq!(cars[1].get_destination(), 2);
}

#[test]
fn deposit_saturation_caps_the_fleet() {
    let mut line = fast_line(vec![0, 1, 2], 6, vec![3, 4], 6, 2, 5, 3);
    let mut max = 0;
    for _ in 0..200 {
        line.step();
        max = max.max(line.fleet().len());
        assert!(line.fleet().len() <= 4);
    }
    assert_eq!(max, 4);
}

#[test]
fn swap_inverts_direction() {
    let mut d = LineDirection::DirectionA;
    d.swap();
    assert_eq!(d, LineDirection::DirectionB);
    d.swap();
    assert_eq!(d, LineDirection::DirectionA);
    assert_eq!(LineDirection::DirectionA.choose_direction(1, 2), 1);
    assert_eq!(LineDirection::DirectionB.choose_direction(1, 2), 2);
}
