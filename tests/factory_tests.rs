use metro_sim::fast_line_factory::BuildLineChunkConfig;
use metro_sim::line::{Segment, SegmentInfo, SegmentType, Terminus};
use metro_sim::line_factory::{
    segment_vector_factory, terminus_factory, LineChunkConfig, LineChunkKind, LineInfoConfig,
    StationInfoConfig,
};

#[test]
fn test_build_line_chunk_config() {
    let mut blcc = BuildLineChunkConfig::new(6, 5);
    assert_eq!(
        blcc.next(),
        Some(LineChunkConfig::new(5, LineChunkKind::Single))
    );
    assert_eq!(blcc.next(), None);

    let mut blcc = BuildLineChunkConfig::new(5, 5);
    assert_eq!(
        blcc.next(),
        Some(LineChunkConfig::new(1, LineChunkKind::Single))
    );
    assert_eq!(
        blcc.next(),
        Some(LineChunkConfig::new(3, LineChunkKind::Double))
    );
    assert_eq!(
        blcc.next(),
        Some(LineChunkConfig::new(1, LineChunkKind::Single))
    );
    assert_eq!(blcc.next(), None);
}

#[test]
fn long_stretch_is_split_in_three() {
    let chunks = BuildLineChunkConfig::new(6, 14).collect();
    assert_eq!(
        chunks,
        vec![
            LineChunkConfig::new(4, LineChunkKind::Single),
            LineChunkConfig::new(6, LineChunkKind::Double),
            LineChunkConfig::new(4, LineChunkKind::Single),
        ]
    );
}

#[test]
fn test_terminus_factory() {
    let station_ics: Vec<StationInfoConfig> = (0..4)
        .map(|index| StationInfoConfig {
            index,
            duration: 10,
            terminus: false,
        })
        .collect();

    let (ta, tb) = terminus_factory(&station_ics, 10, 4);
    let expect_ta = Terminus::new(0, 10, 4);
    let expect_tb = Terminus::new(3, 10, 4);
    assert_eq!(ta, expect_ta);
    assert_eq!(tb, expect_tb);
}

#[test]
fn test_railway_factory() {
    let station_ics = (0..3)
        .map(|index| StationInfoConfig {
            index,
            duration: 10,
            terminus: false,
        })
        .collect();
    let line_ics = (0..2)
        .map(|i| i % 3 + 1)
        .map(|i| {
            (0..i)
                .map(|j| LineChunkConfig {
                    duration: 10,
                    kind: if j % 2 == 0 {
                        LineChunkKind::Double
                    } else {
                        LineChunkKind::Single
                    },
                })
                .collect()
        })
        .map(|v| LineInfoConfig { chunks: v })
        .collect();
    let railway = segment_vector_factory(station_ics, line_ics);
    let expected = vec![
        Segment::Double(
            SegmentInfo::new(SegmentType::Station(0), 10),
            SegmentInfo::new(SegmentType::Station(0), 10),
        ),
        Segment::Double(
            SegmentInfo::new(SegmentType::Line, 10),
            SegmentInfo::new(SegmentType::Line, 10),
        ),
        Segment::Double(
            SegmentInfo::new(SegmentType::Station(1), 10),
            SegmentInfo::new(SegmentType::Station(1), 10),
        ),
        Segment::Double(
            SegmentInfo::new(SegmentType::Line, 10),
            SegmentInfo::new(SegmentType::Line, 10),
        ),
        Segment::Single(SegmentInfo::new(SegmentType::Line, 10)),
        Segment::Double(
            SegmentInfo::new(SegmentType::Station(2), 10),
            SegmentInfo::new(SegmentType::Station(2), 10),
        ),
    ];

    assert_eq!(railway, expected);
}
