//! Building a line from a description of its stations and of the track
//! between them.
use crate::fleet::Fleet;
use crate::line::{
    Line, LineDirection, Railway, Segment, SegmentInfo, SegmentStatus, SegmentType, Terminus, kind_ok,
    railway_ok,
};
use crate::mixed_iterator::{MixingIterator, MixingIteratorItem};
use crate::passenger::PassengerAction;
use vstd::prelude::*;

verus! {

/// A station of the line: its index in the network, the steps trains dwell
/// there, and whether it is a terminus.
#[derive(Clone, Copy, Debug, PartialEq, Eq, Structural)]
pub struct StationInfoConfig {
    pub index: usize,
    pub duration: usize,
    pub terminus: bool,
}

impl StationInfoConfig {
    pub fn new(index: usize, duration: usize) -> (r: Self)
        ensures
            r == (StationInfoConfig { index, duration, terminus: false }),
    {
        Self { index, duration, terminus: false }
    }

    fn set_terminus(&mut self)
        ensures
            *final(self) == (StationInfoConfig { terminus: true, ..*old(self) }),
    {
        self.terminus = true;
    }
}

/// Single track, or double track with one per direction.
#[derive(Clone, Copy, Debug, PartialEq, Eq, Structural)]
pub enum LineChunkKind {
    Single,
    Double,
}

/// A piece of track between two stations.
#[derive(Clone, Copy, Debug, PartialEq, Eq, Structural)]
pub struct LineChunkConfig {
    pub duration: usize,
    pub kind: LineChunkKind,
}

impl LineChunkConfig {
    pub fn new(duration: usize, kind: LineChunkKind) -> (r: Self)
        ensures
            r == (LineChunkConfig { duration, kind }),
    {
        Self { duration, kind }
    }
}

/// The track between two consecutive stations, piece by piece.
pub struct LineInfoConfig {
    pub chunks: Vec<LineChunkConfig>,
}

impl LineInfoConfig {
    pub fn new(chunks: Vec<LineChunkConfig>) -> (r: Self)
        ensures
            r.chunks@ == chunks@,
    {
        Self { chunks }
    }
}

/// The description of a line.
pub struct LineFactoryConfig {
    pub station_duration: Vec<StationInfoConfig>,
    pub line_duration: Vec<LineInfoConfig>,
    pub total_station_count: usize,
    pub depo_size: usize,
    pub train_delay: usize,
}

impl LineFactoryConfig {
    pub fn new(
        station_duration: Vec<StationInfoConfig>,
        line_duration: Vec<LineInfoConfig>,
        total_station_count: usize,
        depo_size: usize,
        train_delay: usize,
    ) -> (r: Self)
        ensures
            r.station_duration@ == station_duration@,
            r.line_duration@ == line_duration@,
            r.total_station_count == total_station_count,
            r.depo_size == depo_size,
            r.train_delay == train_delay,
    {
        Self { station_duration, line_duration, total_station_count, depo_size, train_delay }
    }

    /// The stations and the track between them, with every count 0.
    pub fn from_iter(station_duration: Vec<StationInfoConfig>, line_duration: Vec<LineInfoConfig>) -> (r: Self)
        ensures
            r.station_duration@ == station_duration@,
            r.line_duration@ == line_duration@,
            r.total_station_count == 0,
            r.depo_size == 0,
            r.train_delay == 0,
    {
        Self::new(station_duration, line_duration, 0, 0, 0)
    }

    pub fn set_total_station_count(self, value: usize) -> (r: Self)
        ensures
            r.station_duration@ == self.station_duration@,
            r.line_duration@ == self.line_duration@,
            r.total_station_count == value,
            r.depo_size == self.depo_size,
            r.train_delay == self.train_delay,
    {
        let mut c = self;
        c.total_station_count = value;
        c
    }

    pub fn set_depo_size(self, value: usize) -> (r: Self)
        ensures
            r.station_duration@ == self.station_duration@,
            r.line_duration@ == self.line_duration@,
            r.total_station_count == self.total_station_count,
            r.depo_size == value,
            r.train_delay == self.train_delay,
    {
        let mut c = self;
        c.depo_size = value;
        c
    }

    pub fn set_train_delay(self, value: usize) -> (r: Self)
        ensures
            r.station_duration@ == self.station_duration@,
            r.line_duration@ == self.line_duration@,
            r.total_station_count == self.total_station_count,
            r.depo_size == self.depo_size,
            r.train_delay == value,
    {
        let mut c = self;
        c.train_delay = value;
        c
    }
}

/// The segment of a station: double track, both tracks of its kind.
pub open spec fn station_segment(s: StationInfoConfig) -> Segment {
    let kind = if s.terminus {
        SegmentType::Terminus(s.index)
    } else {
        SegmentType::Station(s.index)
    };
    let info = SegmentInfo { kind, stat: SegmentStatus::Free, duration: s.duration };
    Segment::Double(info, info)
}

/// The segment of a piece of track.
pub open spec fn chunk_segment(c: LineChunkConfig) -> Segment {
    let info = SegmentInfo { kind: SegmentType::Line, stat: SegmentStatus::Free, duration: c.duration };
    match c.kind {
        LineChunkKind::Single => Segment::Single(info),
        LineChunkKind::Double => Segment::Double(info, info),
    }
}

/// The segments of the first `k` stations, each followed by the track
/// after it when there is one.
pub open spec fn layout(ts: Seq<StationInfoConfig>, ls: Seq<Seq<LineChunkConfig>>, k: nat) -> Seq<Segment>
    decreases k,
{
    if k == 0 {
        seq![]
    } else {
        let before = layout(ts, ls, (k - 1) as nat) + seq![station_segment(ts[k - 1])];
        if k - 1 < ls.len() {
            before + ls[k - 1].map_values(|c: LineChunkConfig| chunk_segment(c))
        } else {
            before
        }
    }
}

/// The stations with the first and the last marked as termini.
pub open spec fn with_termini(ts: Seq<StationInfoConfig>) -> Seq<StationInfoConfig> {
    let first = ts.update(0, StationInfoConfig { terminus: true, ..ts[0] });
    first.update(ts.len() - 1, StationInfoConfig { terminus: true, ..first[ts.len() - 1] })
}

/// The pieces of track of each stretch between stations.
pub open spec fn chunk_lists(ls: Seq<LineInfoConfig>) -> Seq<Seq<LineChunkConfig>> {
    ls.map_values(|l: LineInfoConfig| l.chunks@)
}

/// The railway described by stations and the track between them.
pub open spec fn railway_of(ts: Seq<StationInfoConfig>, ls: Seq<Seq<LineChunkConfig>>) -> Seq<Segment> {
    layout(with_termini(ts), ls, ts.len())
}

/// The description fits a network of `n` stations: at least two stations,
/// each a station of the network, with track between each two.
pub open spec fn description_ok(ts: Seq<StationInfoConfig>, ls: Seq<Seq<LineChunkConfig>>, n: nat) -> bool {
    &&& ts.len() >= 2
    &&& ls.len() + 1 == ts.len()
    &&& forall|i: int| 0 <= i < ts.len() ==> (#[trigger] ts[i]).index < n
}

proof fn lemma_layout_first(ts: Seq<StationInfoConfig>, ls: Seq<Seq<LineChunkConfig>>, k: nat)
    requires
        1 <= k <= ts.len(),
    ensures
        layout(ts, ls, k).len() >= 1,
        layout(ts, ls, k)[0] == station_segment(ts[0]),
    decreases k,
{
    let before = layout(ts, ls, (k - 1) as nat) + seq![station_segment(ts[k - 1])];
    if k - 1 < ls.len() {
        let cs = ls[k - 1].map_values(|c: LineChunkConfig| chunk_segment(c));
        assert(layout(ts, ls, k) == before + cs);
        assert((before + cs)[0] == before[0]);
    } else {
        assert(layout(ts, ls, k) == before);
    }
    if k > 1 {
        lemma_layout_first(ts, ls, (k - 1) as nat);
        assert(before[0] == layout(ts, ls, (k - 1) as nat)[0]);
    } else {
        assert(layout(ts, ls, 0) =~= Seq::<Segment>::empty());
        assert(before[0] == station_segment(ts[0]));
    }
}

proof fn lemma_layout_kinds(ts: Seq<StationInfoConfig>, ls: Seq<Seq<LineChunkConfig>>, k: nat, n: nat)
    requires
        k <= ts.len(),
        forall|i: int| 0 <= i < ts.len() ==> (#[trigger] ts[i]).index < n,
    ensures
        forall|g: int, d: LineDirection|
            0 <= g < layout(ts, ls, k).len() ==> kind_ok(#[trigger] layout(ts, ls, k)[g].info(d).kind, n),
    decreases k,
{
    if k > 0 {
        lemma_layout_kinds(ts, ls, (k - 1) as nat, n);
        let prev = layout(ts, ls, (k - 1) as nat);
        let cur = layout(ts, ls, k);
        assert forall|g: int, d: LineDirection| 0 <= g < cur.len() implies kind_ok(#[trigger] cur[g].info(d).kind, n) by {
            if g < prev.len() {
                assert(cur[g] == prev[g]);
            } else if g == prev.len() {
                assert(cur[g] == station_segment(ts[k - 1]));
            } else {
                let cs = ls[k - 1].map_values(|c: LineChunkConfig| chunk_segment(c));
                assert(cur[g] == cs[g - prev.len() - 1]);
            }
        }
    }
}

proof fn lemma_layout_free(ts: Seq<StationInfoConfig>, ls: Seq<Seq<LineChunkConfig>>, k: nat)
    requires
        k <= ts.len(),
    ensures
        forall|g: int, d: LineDirection|
            0 <= g < layout(ts, ls, k).len() ==> #[trigger] layout(ts, ls, k)[g].free_in(d),
    decreases k,
{
    if k > 0 {
        lemma_layout_free(ts, ls, (k - 1) as nat);
        let prev = layout(ts, ls, (k - 1) as nat);
        let cur = layout(ts, ls, k);
        assert forall|g: int, d: LineDirection| 0 <= g < cur.len() implies #[trigger] cur[g].free_in(d) by {
            if g < prev.len() {
                assert(cur[g] == prev[g]);
            } else if g == prev.len() {
                assert(cur[g] == station_segment(ts[k - 1]));
            } else {
                let cs = ls[k - 1].map_values(|c: LineChunkConfig| chunk_segment(c));
                assert(cur[g] == cs[g - prev.len() - 1]);
            }
        }
    }
}

/// The railway described by valid stations and track has termini at both
/// ends and serves stations of the network only.
pub proof fn lemma_railway_of_ok(ts: Seq<StationInfoConfig>, ls: Seq<Seq<LineChunkConfig>>, n: nat)
    requires
        description_ok(ts, ls, n),
    ensures
        railway_ok(railway_of(ts, ls), n),
        forall|g: int, d: LineDirection|
            0 <= g < railway_of(ts, ls).len() ==> #[trigger] railway_of(ts, ls)[g].free_in(d),
{
    let m = with_termini(ts);
    assert forall|i: int| 0 <= i < m.len() implies (#[trigger] m[i]).index < n by {
        assert(m[i].index == ts[i].index);
    }
    lemma_layout_first(m, ls, ts.len());
    lemma_layout_kinds(m, ls, ts.len(), n);
    let r = layout(m, ls, ts.len());
    let k = ts.len();
    lemma_layout_first(m, ls, (k - 1) as nat);
    assert(r == layout(m, ls, (k - 1) as nat) + seq![station_segment(m[k - 1])]);
    assert(r.len() >= 2);
    assert(r.last() == station_segment(m[ts.len() - 1]));
    assert(m[0].terminus);
    assert(m[ts.len() - 1].terminus);
    lemma_layout_free(m, ls, ts.len());
}

/// Builds a line: its termini are the first and last stations, its
/// railway alternates stations and track, its quota is two deposits' worth
/// of trains.
pub fn line_factory<T: PassengerAction>(config: LineFactoryConfig) -> (r: Line<T>)
    requires
        description_ok(config.station_duration@, chunk_lists(config.line_duration@), config.total_station_count as nat),
        2 * config.depo_size <= usize::MAX,
    ensures
        r.wf(),
        r.rail() == railway_of(config.station_duration@, chunk_lists(config.line_duration@)),
        r.quota().target() == 2 * config.depo_size,
        r.quota().count_so_far() == 0,
        r.term_a().id() == config.station_duration@[0].index,
        r.term_b().id() == config.station_duration@.last().index,
        r.term_a().depo().target() == config.depo_size,
        r.term_b().depo().target() == config.depo_size,
        r.term_a().depo().count_so_far() == 0,
        r.term_b().depo().count_so_far() == 0,
        r.term_a().cadence().target() == config.train_delay,
        r.term_b().cadence().target() == config.train_delay,
        r.term_a().cadence().count_so_far() == 0,
        r.term_b().cadence().count_so_far() == 0,
        r.cars().len() == 0,
        r.size() == config.total_station_count,
        config.depo_size >= 1 && config.train_delay == 0 ==> {
            &&& r.may_start(LineDirection::DirectionA)
            &&& r.may_start(LineDirection::DirectionB)
            &&& r.quota().count_so_far() + 2 <= r.quota().target()
        },
{
    proof {
        lemma_railway_of_ok(config.station_duration@, chunk_lists(config.line_duration@), config.total_station_count as nat);
    }
    let (term_a, term_b) = terminus_factory(&config.station_duration, config.depo_size, config.train_delay);
    let railway = railway_factory(config.station_duration, config.line_duration);
    let train_count = 2 * config.depo_size;
    let fleet = Fleet::new(train_count);
    let r = Line::new(train_count, term_a, term_b, railway, fleet, config.total_station_count);
    assert(r.rail().last() == r.rail()[r.rail().len() - 1]);
    r
}

/// The termini of the first and the last station.
pub fn terminus_factory(station_ics: &Vec<StationInfoConfig>, d: usize, t: usize) -> (r: (Terminus, Terminus))
    requires
        station_ics@.len() > 0,
    ensures
        r.0.id() == station_ics@[0].index,
        r.1.id() == station_ics@.last().index,
        r.0.depo().target() == d && r.0.depo().count_so_far() == 0,
        r.1.depo().target() == d && r.1.depo().count_so_far() == 0,
        r.0.cadence().target() == t && r.0.cadence().count_so_far() == 0,
        r.1.cadence().target() == t && r.1.cadence().count_so_far() == 0,
{
    let term_a = build_terminus(&station_ics[0], d, t);
    let term_b = build_terminus(&station_ics[station_ics.len() - 1], d, t);
    (term_a, term_b)
}

fn build_terminus(info: &StationInfoConfig, d: usize, t: usize) -> (r: Terminus)
    ensures
        r.id() == info.index,
        r.depo().target() == d && r.depo().count_so_far() == 0,
        r.cadence().target() == t && r.cadence().count_so_far() == 0,
{
    Terminus::new(info.index, d, t)
}

fn railway_factory(station_ics: Vec<StationInfoConfig>, line_ics: Vec<LineInfoConfig>) -> (r: Railway)
    requires
        station_ics@.len() >= 1,
        line_ics@.len() + 1 == station_ics@.len(),
    ensures
        r@ == railway_of(station_ics@, chunk_lists(line_ics@)),
{
    let station_ics = set_terminus(station_ics);
    let line = segment_vector_factory(station_ics, line_ics);
    assert(chunk_lists(line_ics@).len() == line_ics@.len());
    Railway::new(line)
}

/// Marks the first and the last station as termini.
fn set_terminus(station_ics: Vec<StationInfoConfig>) -> (r: Vec<StationInfoConfig>)
    requires
        station_ics@.len() >= 1,
    ensures
        r@ == with_termini(station_ics@),
{
    let mut s = station_ics;
    let mut first = s[0];
    first.set_terminus();
    s.set(0, first);
    let last_i = s.len() - 1;
    let mut last = s[last_i];
    last.set_terminus();
    s.set(last_i, last);
    s
}

/// The segment of an item: a station, or the pieces of a stretch.
pub open spec fn item_segments(e: MixingIteratorItem<StationInfoConfig, LineInfoConfig>) -> Seq<Segment> {
    match e {
        MixingIteratorItem::T(s) => seq![station_segment(s)],
        MixingIteratorItem::K(l) => l.chunks@.map_values(|c: LineChunkConfig| chunk_segment(c)),
    }
}

/// The segments of the stations and of the track between them, taken in
/// turn, up to the first turn of a list that has run out.
pub fn segment_vector_factory(station_ics: Vec<StationInfoConfig>, line_ics: Vec<LineInfoConfig>) -> (r: Vec<Segment>)
    ensures
        r@ == layout(
            station_ics@,
            chunk_lists(line_ics@),
            if station_ics@.len() <= line_ics@.len() {
                station_ics@.len()
            } else {
                line_ics@.len() + 1
            },
        ),
{
    let ghost ts = station_ics@;
    let ghost ls = line_ics@;
    let ghost cl = chunk_lists(ls);
    let mut line: Vec<Segment> = Vec::new();
    let mut mix_iter = MixingIterator::new(station_ics, line_ics);
    let ghost mut kt: nat = 0;
    let ghost mut kl: nat = 0;
    loop
        invariant
            cl == chunk_lists(ls),
            kt <= ts.len(),
            kl <= ls.len(),
            mix_iter.rest_t() == ts.subrange(kt as int, ts.len() as int),
            mix_iter.rest_k() == ls.subrange(kl as int, ls.len() as int),
            mix_iter.t_turn() ==> kt == kl && line@ == layout(ts, cl, kt),
            !mix_iter.t_turn() ==> kt == kl + 1 && line@ == layout(ts, cl, kl) + seq![station_segment(ts[kl as int])],
        ensures
            line@ == layout(ts, cl, if ts.len() <= ls.len() { ts.len() } else { ls.len() + 1 }),
        decreases mix_iter.rest_t().len() + mix_iter.rest_k().len(),
    {
        let ghost turn = mix_iter.t_turn();
        match mix_iter.next() {
            Some(e) => {
                proof {
                    if turn {
                        assert(e == MixingIteratorItem::<StationInfoConfig, LineInfoConfig>::T(ts[kt as int]));
                    } else {
                        assert(kl < ls.len());
                        assert(e == MixingIteratorItem::<StationInfoConfig, LineInfoConfig>::K(ls[kl as int]));
                        assert(cl[kl as int] == ls[kl as int].chunks@);
                    }
                }
                line = segment_factory(line, e);
                proof {
                    if turn {
                        kt = kt + 1;
                    } else {
                        kl = kl + 1;
                    }
                    assert(mix_iter.rest_t() =~= ts.subrange(kt as int, ts.len() as int));
                    assert(mix_iter.rest_k() =~= ls.subrange(kl as int, ls.len() as int));
                }
            },
            None => {
                proof {
                    if !turn {
                        assert(kl == ls.len());
                        assert(cl.len() == ls.len());
                        assert(layout(ts, cl, kl + 1) == layout(ts, cl, kl) + seq![station_segment(ts[kl as int])]);
                    } else {
                        assert(kt == ts.len());
                    }
                }
                break;
            },
        }
    }
    line
}

/// Adds the segments of one item at the end of `line`.
pub fn segment_factory(line: Vec<Segment>, e: MixingIteratorItem<StationInfoConfig, LineInfoConfig>) -> (r: Vec<Segment>)
    ensures
        r@ == line@ + item_segments(e),
{
    let mut line = line;
    match e {
        MixingIteratorItem::T(station_ics) => {
            let tmp = station_segment_factory(&station_ics);
            line.push(tmp);
        },
        MixingIteratorItem::K(line_ics) => {
            let mut tmp = rails_all_segment_factory(&line_ics);
            line.append(&mut tmp);
        },
    }
    line
}

fn station_segment_factory(station_ic: &StationInfoConfig) -> (r: Segment)
    ensures
        r == station_segment(*station_ic),
{
    let dir_a = station_segment_info_factory(station_ic);
    let dir_b = station_segment_info_factory(station_ic);
    Segment::Double(dir_a, dir_b)
}

fn station_segment_info_factory(station_ics: &StationInfoConfig) -> (r: SegmentInfo)
    ensures
        r == station_segment(*station_ics)->Double_0,
{
    let kind = if station_ics.terminus {
        SegmentType::Terminus(station_ics.index)
    } else {
        SegmentType::Station(station_ics.index)
    };
    SegmentInfo::new(kind, station_ics.duration)
}

fn rails_all_segment_factory(line_ic: &LineInfoConfig) -> (r: Vec<Segment>)
    ensures
        r@ == line_ic.chunks@.map_values(|c: LineChunkConfig| chunk_segment(c)),
{
    let mut out: Vec<Segment> = Vec::new();
    let mut k: usize = 0;
    while k < line_ic.chunks.len()
        invariant
            k <= line_ic.chunks@.len(),
            out@ == line_ic.chunks@.subrange(0, k as int).map_values(|c: LineChunkConfig| chunk_segment(c)),
        decreases line_ic.chunks.len() - k,
    {
        out.push(rail_segment_factory(&line_ic.chunks[k]));
        k = k + 1;
        assert(out@ =~= line_ic.chunks@.subrange(0, k as int).map_values(|c: LineChunkConfig| chunk_segment(c)));
    }
    assert(line_ic.chunks@.subrange(0, k as int) =~= line_ic.chunks@);
    out
}

fn rail_segment_factory(chunk: &LineChunkConfig) -> (r: Segment)
    ensures
        r == chunk_segment(*chunk),
{
    let dur = chunk.duration;
    match chunk.kind {
        LineChunkKind::Single => Segment::Single(rail_segment_info_factory(dur)),
        LineChunkKind::Double => Segment::Double(rail_segment_info_factory(dur), rail_segment_info_factory(dur)),
    }
}

fn rail_segment_info_factory(duration: usize) -> (r: SegmentInfo)
    ensures
        r == (SegmentInfo { kind: SegmentType::Line, stat: SegmentStatus::Free, duration }),
{
    SegmentInfo::new(SegmentType::Line, duration)
}

} // verus!
