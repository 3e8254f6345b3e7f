//! A metro line: its railway of segments with their occupancy, its two
//! terminus deposits, and the trains running on it.
use crate::car::{Car, CarLocation};
use crate::counter::{Counter, CyclicCounter};
use crate::fleet::Fleet;
use crate::index_list::total;
use crate::passenger::PassengerAction;
use crate::station::{Station, load_ok, served};
use vstd::prelude::*;

verus! {

/// The two directions of travel. `DirectionA` runs toward the first
/// segment of the railway, `DirectionB` toward the last.
#[derive(Clone, Copy, Debug, PartialEq, Eq, Structural)]
pub enum LineDirection {
    DirectionA,
    DirectionB,
}

/// The other direction.
pub open spec fn opposite(d: LineDirection) -> LineDirection {
    match d {
        LineDirection::DirectionA => LineDirection::DirectionB,
        LineDirection::DirectionB => LineDirection::DirectionA,
    }
}

impl LineDirection {
    /// Invert the direction.
    pub fn swap(&mut self)
        ensures
            *final(self) == opposite(*old(self)),
    {
        *self = match *self {
            Self::DirectionA => Self::DirectionB,
            Self::DirectionB => Self::DirectionA,
        };
    }

    /// The first value for `DirectionA`, the second for `DirectionB`.
    pub fn choose_direction<T>(self, t1: T, t2: T) -> (r: T)
        ensures
            r == (if self == LineDirection::DirectionA {
                t1
            } else {
                t2
            }),
    {
        match self {
            Self::DirectionA => t1,
            Self::DirectionB => t2,
        }
    }
}

/// What a segment of railway is: a station, a terminus (where trains turn
/// back), or plain track.
#[derive(Clone, Copy, Debug, PartialEq, Eq, Structural)]
pub enum SegmentType {
    Station(usize),
    Terminus(usize),
    Line,
}

/// Whether a segment is taken.
#[derive(Clone, Copy, Debug, PartialEq, Eq, Structural)]
pub enum SegmentStatus {
    Free,
    Occupied,
}

impl Default for SegmentStatus {
    fn default() -> (r: Self)
        ensures
            r == SegmentStatus::Free,
    {
        Self::Free
    }
}

/// One track of a segment: what it is, whether it is taken, and how many
/// steps a train spends on it.
#[derive(Clone, Copy, Debug, PartialEq, Eq, Structural)]
pub struct SegmentInfo {
    pub kind: SegmentType,
    pub stat: SegmentStatus,
    pub duration: usize,
}

/// Where a train stands on a segment of the given kind at index `index`.
pub open spec fn location_at(kind: SegmentType, index: usize) -> CarLocation {
    match kind {
        SegmentType::Station(i) => CarLocation::Station { segment: index, station: i },
        SegmentType::Terminus(i) => CarLocation::Station { segment: index, station: i },
        SegmentType::Line => CarLocation::Segment { index },
    }
}

impl SegmentInfo {
    pub fn new(kind: SegmentType, duration: usize) -> (r: Self)
        ensures
            r == (SegmentInfo { kind, stat: SegmentStatus::Free, duration }),
    {
        Self { kind, stat: SegmentStatus::Free, duration }
    }

    pub fn is_free(&self) -> (r: bool)
        ensures
            r == (self.stat == SegmentStatus::Free),
    {
        match self.stat {
            SegmentStatus::Free => true,
            SegmentStatus::Occupied => false,
        }
    }

    pub fn set_occupied(&mut self)
        ensures
            *final(self) == (SegmentInfo { stat: SegmentStatus::Occupied, ..*old(self) }),
    {
        self.stat = SegmentStatus::Occupied;
    }

    pub fn set_free(&mut self)
        ensures
            *final(self) == (SegmentInfo { stat: SegmentStatus::Free, ..*old(self) }),
    {
        self.stat = SegmentStatus::Free;
    }

    pub fn get_duration(&self) -> (r: usize)
        ensures
            r == self.duration,
    {
        self.duration
    }

    pub fn get_type(&self) -> (r: SegmentType)
        ensures
            r == self.kind,
    {
        self.kind
    }

    /// The location of a train on this track at segment `index`.
    pub fn make_location(&self, index: usize) -> (r: CarLocation)
        ensures
            r == location_at(self.kind, index),
    {
        match self.kind {
            SegmentType::Station(i) => CarLocation::station(index, i),
            SegmentType::Terminus(i) => CarLocation::station(index, i),
            SegmentType::Line => CarLocation::segment(index),
        }
    }
}

/// A segment of railway: single track, shared by both directions, or
/// double track, one per direction.
#[derive(Clone, Copy, Debug, PartialEq, Eq, Structural)]
pub enum Segment {
    Single(SegmentInfo),
    Double(SegmentInfo, SegmentInfo),
}

impl Segment {
    /// The track that a train running in `dir` uses.
    pub open spec fn info(self, dir: LineDirection) -> SegmentInfo {
        match self {
            Segment::Single(i) => i,
            Segment::Double(a, b) => if dir == LineDirection::DirectionA {
                a
            } else {
                b
            },
        }
    }

    /// The segment with the track for `dir` set to `st`.
    pub open spec fn with_status(self, dir: LineDirection, st: SegmentStatus) -> Segment {
        match self {
            Segment::Single(i) => Segment::Single(SegmentInfo { stat: st, ..i }),
            Segment::Double(a, b) => if dir == LineDirection::DirectionA {
                Segment::Double(SegmentInfo { stat: st, ..a }, b)
            } else {
                Segment::Double(a, SegmentInfo { stat: st, ..b })
            },
        }
    }

    pub open spec fn free_in(self, dir: LineDirection) -> bool {
        self.info(dir).stat == SegmentStatus::Free
    }

    pub fn is_free(&self, dir: LineDirection) -> (r: bool)
        ensures
            r == self.free_in(dir),
    {
        self.choose_segment_info(dir).is_free()
    }

    fn set_status(&mut self, dir: LineDirection, st: SegmentStatus)
        ensures
            *final(self) == old(self).with_status(dir, st),
    {
        *self = match *self {
            Segment::Single(i) => Segment::Single(SegmentInfo { stat: st, ..i }),
            Segment::Double(a, b) => match dir {
                LineDirection::DirectionA => Segment::Double(SegmentInfo { stat: st, ..a }, b),
                LineDirection::DirectionB => Segment::Double(a, SegmentInfo { stat: st, ..b }),
            },
        };
    }

    /// Take the track for `dir`: on a single segment, both directions.
    pub fn set_occupied(&mut self, dir: LineDirection)
        ensures
            *final(self) == old(self).with_status(dir, SegmentStatus::Occupied),
    {
        self.set_status(dir, SegmentStatus::Occupied);
    }

    /// Release the track for `dir`: on a single segment, both directions.
    pub fn set_free(&mut self, dir: LineDirection)
        ensures
            *final(self) == old(self).with_status(dir, SegmentStatus::Free),
    {
        self.set_status(dir, SegmentStatus::Free);
    }

    pub fn get_duration(&self, dir: LineDirection) -> (r: usize)
        ensures
            r == self.info(dir).duration,
    {
        self.choose_segment_info(dir).get_duration()
    }

    pub fn make_location(&self, dir: LineDirection, index: usize) -> (r: CarLocation)
        ensures
            r == location_at(self.info(dir).kind, index),
    {
        self.choose_segment_info(dir).make_location(index)
    }

    pub fn get_type(&self, dir: LineDirection) -> (r: SegmentType)
        ensures
            r == self.info(dir).kind,
    {
        self.choose_segment_info(dir).get_type()
    }

    pub fn choose_segment_info(&self, dir: LineDirection) -> (r: &SegmentInfo)
        ensures
            *r == self.info(dir),
    {
        match self {
            Self::Single(ti) => ti,
            Self::Double(d1, d2) => dir.choose_direction(d1, d2),
        }
    }
}

/// Clearing the track of one direction frees a single segment for both
/// directions, and leaves the other track of a double segment as it was.
pub proof fn lemma_free_symmetry(seg: Segment, dir: LineDirection)
    ensures
        seg matches Segment::Single(_) ==> {
            &&& seg.with_status(dir, SegmentStatus::Free).free_in(LineDirection::DirectionA)
            &&& seg.with_status(dir, SegmentStatus::Free).free_in(LineDirection::DirectionB)
        },
        seg matches Segment::Double(_, _) ==> {
            &&& seg.with_status(dir, SegmentStatus::Free).free_in(dir)
            &&& seg.with_status(dir, SegmentStatus::Free).info(opposite(dir)) == seg.info(opposite(dir))
        },
{
}

/// What a train learns when it enters a segment.
pub struct NextStepInfo {
    pub kind: SegmentType,
    pub time: usize,
    pub loc: CarLocation,
}

/// The index of the segment after `curr` in direction `dir`.
pub open spec fn next_index(curr: int, dir: LineDirection) -> int {
    if dir == LineDirection::DirectionA {
        curr - 1
    } else {
        curr + 1
    }
}

pub fn get_next_trunk(curr: usize, dir: LineDirection) -> (r: usize)
    requires
        dir == LineDirection::DirectionA ==> curr > 0,
        dir == LineDirection::DirectionB ==> curr < usize::MAX,
    ensures
        r == next_index(curr as int, dir),
{
    match dir {
        LineDirection::DirectionA => curr - 1,
        LineDirection::DirectionB => curr + 1,
    }
}

/// The railway of a line: its segments from the first terminus to the
/// second.
pub struct Railway {
    line: Vec<Segment>,
}

impl View for Railway {
    type V = Seq<Segment>;

    closed spec fn view(&self) -> Seq<Segment> {
        self.line@
    }
}

/// A train running in `dir` on segment `curr` has a next segment.
pub open spec fn can_advance(rail: Seq<Segment>, curr: int, dir: LineDirection) -> bool {
    0 <= curr < rail.len() && 0 <= next_index(curr, dir) < rail.len()
}

/// The railway after a train running in `dir` moves from `curr` to the next
/// segment: the next one is taken and the current one released, both in
/// `dir`.
pub open spec fn advanced(rail: Seq<Segment>, curr: int, dir: LineDirection) -> Seq<Segment> {
    let next = next_index(curr, dir);
    let taken = rail.update(next, rail[next].with_status(dir, SegmentStatus::Occupied));
    taken.update(curr, taken[curr].with_status(dir, SegmentStatus::Free))
}

impl Railway {
    pub fn new(line: Vec<Segment>) -> (r: Self)
        ensures
            r@ == line@,
    {
        Railway { line }
    }

    pub fn len(&self) -> (r: usize)
        ensures
            r == self@.len(),
    {
        self.line.len()
    }

    pub fn get_segment(&self, index: usize) -> (r: &Segment)
        requires
            index < self@.len(),
        ensures
            *r == self@[index as int],
    {
        &self.line[index]
    }

    pub fn get_segment_duration(&self, dir: LineDirection, index: usize) -> (r: usize)
        requires
            index < self@.len(),
        ensures
            r == self@[index as int].info(dir).duration,
    {
        self.line[index].get_duration(dir)
    }

    /// Move a train from `curr` in `dir` when the next segment is free in
    /// `dir`; otherwise nothing changes.
    pub fn next_step(&mut self, curr: usize, dir: LineDirection) -> (r: Option<NextStepInfo>)
        requires
            can_advance(old(self)@, curr as int, dir),
        ensures
            old(self)@[next_index(curr as int, dir)].free_in(dir) ==> {
                let next = next_index(curr as int, dir);
                let seg = old(self)@[next].info(dir);
                &&& final(self)@ == advanced(old(self)@, curr as int, dir)
                &&& r == Some(
                    NextStepInfo {
                        kind: seg.kind,
                        time: seg.duration,
                        loc: location_at(seg.kind, next as usize),
                    },
                )
            },
            !old(self)@[next_index(curr as int, dir)].free_in(dir) ==> {
                &&& final(self)@ == old(self)@
                &&& r is None
            },
    {
        if self.is_free(curr, dir) {
            Some(self.update_car_location(curr, dir))
        } else {
            None
        }
    }

    /// Whether the segment after `curr` in `dir` is free in `dir`.
    pub fn is_free(&self, curr: usize, dir: LineDirection) -> (r: bool)
        requires
            can_advance(self@, curr as int, dir),
        ensures
            r == self@[next_index(curr as int, dir)].free_in(dir),
    {
        let len = self.line.len();
        let next = get_next_trunk(curr, dir);
        self.line[next].is_free(dir)
    }

    /// Take the segment after `curr` and release `curr`, both in `dir`.
    pub fn update_car_location(&mut self, curr: usize, dir: LineDirection) -> (r: NextStepInfo)
        requires
            can_advance(old(self)@, curr as int, dir),
        ensures
            final(self)@ == advanced(old(self)@, curr as int, dir),
            ({
                let next = next_index(curr as int, dir);
                let seg = old(self)@[next].info(dir);
                r == NextStepInfo {
                    kind: seg.kind,
                    time: seg.duration,
                    loc: location_at(seg.kind, next as usize),
                }
            }),
    {
        let len = self.line.len();
        let next = get_next_trunk(curr, dir);
        let mut seg_next = self.line[next];
        seg_next.set_occupied(dir);
        self.line.set(next, seg_next);
        let mut seg_curr = self.line[curr];
        seg_curr.set_free(dir);
        self.line.set(curr, seg_curr);
        NextStepInfo {
            kind: self.line[next].get_type(dir),
            time: self.line[next].get_duration(dir),
            loc: self.line[next].make_location(dir, next),
        }
    }

    /// The segment where trains running in `dir` end: the first for
    /// `DirectionA`, the last for `DirectionB`.
    pub fn get_terminus(&self, dir: LineDirection) -> (r: &Segment)
        requires
            self@.len() > 0,
        ensures
            *r == (if dir == LineDirection::DirectionA {
                self@[0]
            } else {
                self@.last()
            }),
    {
        dir.choose_direction(&self.line[0], &self.line[self.line.len() - 1])
    }

    pub fn last_index(&self) -> (r: usize)
        requires
            self@.len() > 0,
        ensures
            r == self@.len() - 1,
    {
        self.line.len() - 1
    }
}

/// A terminus station, which is also a deposit of trains: it holds at most
/// a given number of trains and releases them at a given cadence.
#[derive(Debug, PartialEq, Eq)]
pub struct Terminus {
    station_id: usize,
    depo_counter: Counter,
    train_counter: CyclicCounter,
}

impl Terminus {
    pub closed spec fn id(&self) -> usize {
        self.station_id
    }

    /// The deposit counter: its target is the deposit size, its count the
    /// trains already released.
    pub closed spec fn depo(&self) -> Counter {
        self.depo_counter
    }

    /// The cadence counter between two releases.
    pub closed spec fn cadence(&self) -> CyclicCounter {
        self.train_counter
    }

    /// A train may leave now: the deposit is not empty and the delay since
    /// the last release has elapsed.
    pub open spec fn ready(&self) -> bool {
        !self.depo().done() && self.cadence().done()
    }

    pub fn new(id: usize, depo_size: usize, train_delay: usize) -> (r: Self)
        ensures
            r.id() == id,
            r.depo().target() == depo_size,
            r.depo().count_so_far() == 0,
            r.cadence().target() == train_delay,
            r.cadence().count_so_far() == 0,
    {
        Self {
            station_id: id,
            depo_counter: Counter::new(depo_size),
            train_counter: CyclicCounter::new(train_delay),
        }
    }

    pub fn can_start_new_train(&self) -> (r: bool)
        ensures
            r == self.ready(),
    {
        if self.depo_counter.is_done() {
            false
        } else {
            self.train_counter.is_done()
        }
    }

    /// One tick of the cadence counter.
    pub fn step(&mut self)
        ensures
            final(self).id() == old(self).id(),
            final(self).depo() == old(self).depo(),
            final(self).cadence().target() == old(self).cadence().target(),
            final(self).cadence().count_so_far() == if old(self).cadence().done() {
                0
            } else {
                old(self).cadence().count_so_far() + 1
            },
    {
        self.train_counter.count();
    }

    /// Take one train out of the deposit.
    pub fn add_new_train(&mut self)
        ensures
            final(self).id() == old(self).id(),
            final(self).cadence() == old(self).cadence(),
            final(self).depo().target() == old(self).depo().target(),
            final(self).depo().count_so_far() == if old(self).depo().done() {
                old(self).depo().count_so_far()
            } else {
                old(self).depo().count_so_far() + 1
            },
    {
        self.depo_counter.step();
    }

    /// The station of this terminus.
    pub fn get_station_id(&self) -> (r: usize)
        ensures
            r == self.id(),
    {
        self.station_id
    }
}


/// The station a segment of the given kind serves is one of the `n`
/// stations of the network.
pub open spec fn kind_ok(kind: SegmentType, n: nat) -> bool {
    match kind {
        SegmentType::Station(s) => s < n,
        SegmentType::Terminus(s) => s < n,
        SegmentType::Line => true,
    }
}

/// The railway has two ends where trains turn back, and every station it
/// serves belongs to the network.
pub open spec fn railway_ok(rail: Seq<Segment>, n: nat) -> bool {
    &&& rail.len() >= 2
    &&& rail[0].info(LineDirection::DirectionA).kind is Terminus
    &&& rail.last().info(LineDirection::DirectionB).kind is Terminus
    &&& forall|g: int, d: LineDirection| 0 <= g < rail.len() ==> kind_ok(#[trigger] rail[g].info(d).kind, n)
}

/// A train stands on the railway with room to move on in its direction,
/// and carries well placed passengers.
pub open spec fn car_ok<T>(c: Car<T>, rail: Seq<Segment>, n: nat) -> bool {
    &&& c.loc().seg() < rail.len()
    &&& c.dir() == LineDirection::DirectionA ==> c.loc().seg() > 0
    &&& c.dir() == LineDirection::DirectionB ==> c.loc().seg() < rail.len() - 1
    &&& c.loc() is Station ==> c.loc()->station < n
    &&& c.dest() < n
    &&& load_ok(c.load(), n)
}

/// Moving keeps what every segment is.
pub proof fn lemma_advanced_kinds(rail: Seq<Segment>, curr: int, dir: LineDirection)
    requires
        can_advance(rail, curr, dir),
    ensures
        advanced(rail, curr, dir).len() == rail.len(),
        forall|g: int, d: LineDirection|
            0 <= g < rail.len() ==> #[trigger] advanced(rail, curr, dir)[g].info(d).kind == rail[g].info(d).kind,
{
}

/// One tick of a train running between termini `ta` (at the first segment)
/// and `tb` (at the last), on a railway that goes from `rail` to `rail2`:
/// while its countdown runs it counts; then it enters the next segment when
/// that is free in its direction, taking the segment's time, turning back
/// and heading to the other terminus on a terminus; else it waits.
pub open spec fn tick<T>(c: Car<T>, c2: Car<T>, rail: Seq<Segment>, rail2: Seq<Segment>, ta: usize, tb: usize) -> bool {
    let cur = c.loc().seg() as int;
    let nx = next_index(cur, c.dir());
    let info = rail[nx].info(c.dir());
    &&& c2.load() == c.load()
    &&& c2.countdown().target() == if c.countdown().done() && rail[nx].free_in(c.dir()) {
        info.duration as nat
    } else {
        c.countdown().target()
    }
    &&& if !c.countdown().done() {
        &&& rail2 == rail
        &&& c2.countdown().count_so_far() == c.countdown().count_so_far() + 1
        &&& c2.loc() == c.loc() && c2.dir() == c.dir() && c2.dest() == c.dest()
    } else if !rail[nx].free_in(c.dir()) {
        &&& rail2 == rail
        &&& c2.countdown().count_so_far() == c.countdown().count_so_far()
        &&& c2.loc() == c.loc() && c2.dir() == c.dir() && c2.dest() == c.dest()
    } else {
        &&& rail2 == advanced(rail, cur, c.dir())
        &&& c2.countdown().count_so_far() == 0
        &&& c2.loc() == location_at(info.kind, nx as usize)
        &&& if info.kind is Terminus {
            &&& c2.dir() == opposite(c.dir())
            &&& c2.dest() == if opposite(c.dir()) == LineDirection::DirectionA {
                ta
            } else {
                tb
            }
        } else {
            c2.dir() == c.dir() && c2.dest() == c.dest()
        }
    }
}

/// The trains `cars` tick one after the other into `cars2`, the railway
/// passing through the states of `rails`.
pub open spec fn ticks<T>(
    cars: Seq<Car<T>>,
    cars2: Seq<Car<T>>,
    rails: Seq<Seq<Segment>>,
    ta: usize,
    tb: usize,
) -> bool {
    &&& rails.len() == cars.len() + 1
    &&& cars2.len() == cars.len()
    &&& forall|k: int|
        0 <= k < cars.len() ==> tick(#[trigger] cars[k], cars2[k], rails[k], rails[k + 1], ta, tb)
}

/// The state of a line: its train quota, its two termini, its railway and
/// its running trains, in a network of `network_size` stations.
pub struct Line<T> {
    train_counter: Counter,
    terminus_a: Terminus,
    terminus_b: Terminus,
    railway: Railway,
    fleet: Fleet<T>,
    network_size: usize,
}

impl<T> Line<T> {
    /// How many trains the line has put into service, out of its quota.
    pub closed spec fn quota(&self) -> Counter {
        self.train_counter
    }

    /// The terminus at the first segment.
    pub closed spec fn term_a(&self) -> Terminus {
        self.terminus_a
    }

    /// The terminus at the last segment.
    pub closed spec fn term_b(&self) -> Terminus {
        self.terminus_b
    }

    pub closed spec fn rail(&self) -> Seq<Segment> {
        self.railway@
    }

    pub closed spec fn cars(&self) -> Seq<Car<T>> {
        self.fleet.cars()
    }

    pub closed spec fn size(&self) -> nat {
        self.network_size as nat
    }

    /// The terminus where trains running in `dir` are put into service:
    /// the one at the last segment for `DirectionA`.
    pub open spec fn start_terminus(&self, dir: LineDirection) -> Terminus {
        if dir == LineDirection::DirectionA {
            self.term_b()
        } else {
            self.term_a()
        }
    }

    /// The terminus toward which trains running in `dir` head.
    pub open spec fn end_terminus(&self, dir: LineDirection) -> Terminus {
        if dir == LineDirection::DirectionA {
            self.term_a()
        } else {
            self.term_b()
        }
    }

    /// The segment where trains running in `dir` are put into service.
    pub open spec fn start_index(&self, dir: LineDirection) -> int {
        if dir == LineDirection::DirectionA {
            self.rail().len() - 1
        } else {
            0
        }
    }

    /// `c` is a train just put into service: at the segment and station of
    /// the terminus where trains of its direction start, heading to the
    /// other terminus, with its countdown at the start and nobody on board.
    pub open spec fn fresh_train(&self, c: Car<T>) -> bool {
        &&& c.loc() == (CarLocation::Station {
            segment: self.start_index(c.dir()) as usize,
            station: self.start_terminus(c.dir()).id(),
        })
        &&& c.dest() == self.end_terminus(c.dir()).id()
        &&& c.countdown().count_so_far() == 0
        &&& c.countdown().target() == self.rail()[self.start_index(c.dir())].info(c.dir()).duration
        &&& total(c.load()) == 0
    }

    /// The trains from position `from` on run `DirectionA` only in the first
    /// of those positions and `DirectionB` only in the last: one per
    /// direction at most, `DirectionA` first.
    pub open spec fn new_trains_ordered(&self, from: int) -> bool {
        forall|k: int|
            from <= k < self.cars().len() ==> {
                &&& (#[trigger] self.cars()[k]).dir() == LineDirection::DirectionA ==> k == from
                &&& self.cars()[k].dir() == LineDirection::DirectionB ==> k == self.cars().len() - 1
            }
    }

    /// 1 when a train of direction `dir` stands among the positions from
    /// `from` on, else 0.
    pub open spec fn new_in(&self, from: int, dir: LineDirection) -> int {
        if exists|k: int| from <= k < self.cars().len() && #[trigger] self.cars()[k].dir() == dir {
            1
        } else {
            0
        }
    }

    /// A train may be put into service in `dir`: the quota is not reached,
    /// the segment where it would start is free in `dir`, and the deposit
    /// there is ready.
    pub open spec fn may_start(&self, dir: LineDirection) -> bool {
        &&& !self.quota().done()
        &&& self.rail()[self.start_index(dir)].free_in(dir)
        &&& self.start_terminus(dir).ready()
    }

    pub open spec fn wf(&self) -> bool {
        &&& railway_ok(self.rail(), self.size())
        &&& self.cars().len() == self.quota().count_so_far()
        &&& self.quota().count_so_far() <= self.quota().target()
        &&& self.term_a().id() < self.size()
        &&& self.term_b().id() < self.size()
        &&& forall|i: int| 0 <= i < self.cars().len() ==> car_ok(#[trigger] self.cars()[i], self.rail(), self.size())
    }
}

impl<T: PassengerAction> Line<T> {
    pub fn new(
        counter: usize,
        terminus_a: Terminus,
        terminus_b: Terminus,
        railway: Railway,
        fleet: Fleet<T>,
        network_size: usize,
    ) -> (r: Self)
        requires
            railway_ok(railway@, network_size as nat),
            terminus_a.id() < network_size,
            terminus_b.id() < network_size,
            fleet.cars().len() == 0,
        ensures
            r.wf(),
            r.quota().target() == counter,
            r.quota().count_so_far() == 0,
            r.term_a() == terminus_a,
            r.term_b() == terminus_b,
            r.rail() == railway@,
            r.cars().len() == 0,
            r.size() == network_size,
    {
        Line {
            train_counter: Counter::new(counter),
            terminus_a,
            terminus_b,
            railway,
            fleet,
            network_size,
        }
    }

    /// The running trains.
    pub fn fleet(&self) -> (r: &Fleet<T>)
        ensures
            r.cars() == self.cars(),
    {
        &self.fleet
    }

    /// The railway.
    pub fn railway(&self) -> (r: &Railway)
        ensures
            r@ == self.rail(),
    {
        &self.railway
    }

    /// One simulation step: move the trains, put a new train into service
    /// in each direction where one may start, then tick both deposits.
    pub fn step(&mut self)
        requires
            old(self).wf(),
        ensures
            stepped(*old(self), *final(self)),
    {
        self.move_train();
        let ghost moved = self.cars();
        self.start_train();
        self.terminus_a.step();
        self.terminus_b.step();
        proof {
            lemma_cars_total_extend(old(self).cars(), self.cars());
            assert(self.cars().subrange(0, old(self).cars().len() as int) =~= moved);
        }
    }

    /// Land, then board, the passengers of every train standing at a
    /// station.
    pub fn boarding_operations<'a>(&mut self, stats: &mut Vec<Station<'a, T>>)
        requires
            old(self).wf(),
            old(stats)@.len() == old(self).size(),
            forall|s: int|
                0 <= s < old(stats)@.len() ==> {
                    &&& (#[trigger] old(stats)@[s]).wf(old(self).size())
                    &&& old(stats)@[s].id() == s
                },
        ensures
            boarded(*old(self), *final(self), old(stats)@, final(stats)@),
    {
        let ghost n = self.size();
        let ghost mut chain: Seq<Seq<Station<'a, T>>> = seq![old(stats)@];
        let len = self.fleet.len();
        let mut i: usize = 0;
        while i < len
            invariant
                self.wf(),
                n == self.size(),
                n == old(self).size(),
                len == self.cars().len(),
                len == old(self).cars().len(),
                i <= len,
                self.term_a() == old(self).term_a(),
                self.term_b() == old(self).term_b(),
                self.rail() == old(self).rail(),
                self.quota() == old(self).quota(),
                stats@.len() == n,
                forall|s: int|
                    0 <= s < stats@.len() ==> {
                        &&& (#[trigger] stats@[s]).wf(n)
                        &&& stats@[s].id() == s
                    },
                stations_total(stats@) + cars_total(self.cars()) == stations_total(old(stats)@) + cars_total(
                    old(self).cars(),
                ),
                forall|k: int|
                    0 <= k < len ==> {
                        &&& (#[trigger] self.cars()[k]).loc() == old(self).cars()[k].loc()
                        &&& self.cars()[k].dir() == old(self).cars()[k].dir()
                        &&& self.cars()[k].dest() == old(self).cars()[k].dest()
                        &&& self.cars()[k].countdown() == old(self).cars()[k].countdown()
                        &&& !(old(self).cars()[k].loc() is Station) ==> self.cars()[k].load() == old(
                            self,
                        ).cars()[k].load()
                    },
                chain.len() == i + 1,
                chain[0] == old(stats)@,
                chain[i as int] == stats@,
                forall|k: int| 0 <= k < i ==> visit(chain[k], chain[k + 1], #[trigger] old(self).cars()[k], self.cars()[k]),
                forall|k: int| i <= k < len ==> #[trigger] self.cars()[k] == old(self).cars()[k],
            decreases len - i,
        {
            let ghost cars0 = self.cars();
            let ghost stats0 = stats@;
            let car = self.fleet.car_mut(i);
            let ghost c0 = *car;
            if car.in_station() {
                let s = car.get_current_station();
                let station = &mut stats[s];
                let ghost st0 = *station;
                station.land_passenger(car);
                let ghost st1 = *station;
                let ghost c1 = *car;
                station.board_passengers(car);
                proof {
                    let q = choose|q: Seq<crate::passenger::Passenger<T>>| {
                        &&& crate::station::refreshed(q, c0.load()[s as int], st0.directions(), st0.interchanges(), st0.id())
                        &&& st1.waiting() == crate::index_list::push_all(crate::passenger::PassengerNextDirectionIndex {}, st0.waiting(), q)
                    };
                    assert(served(st0, *station, c0, *car));
                }
                proof {
                    lemma_stations_total_update(stats0, s as int, stats@[s as int]);
                    lemma_cars_total_update(cars0, i as int, self.cars()[i as int]);
                    assert(visit(stats0, stats@, c0, self.cars()[i as int]));
                }
            } else {
                proof {
                    assert(self.cars() =~= cars0);
                }
            }
            proof {
                chain = chain.push(stats@);
                assert forall|k: int| 0 <= k < i + 1 implies visit(chain[k], chain[k + 1], #[trigger] old(self).cars()[k], self.cars()[k]) by {
                    if k < i {
                        assert(self.cars()[k] == cars0[k]);
                    }
                }
                assert forall|k: int| i + 1 <= k < len implies #[trigger] self.cars()[k] == old(self).cars()[k] by {
                    assert(self.cars()[k] == cars0[k]);
                }
            }
            i = i + 1;
        }
        assert(chain.last() == stats@);
        assert forall|k: int| 0 <= k < old(self).cars().len() implies visit(
            chain[k],
            chain[k + 1],
            #[trigger] old(self).cars()[k],
            self.cars()[k],
        ) by {}
    }

    /// Advance every train whose countdown has run out, when its next
    /// segment is free.
    fn move_train(&mut self)
        requires
            old(self).wf(),
        ensures
            final(self).wf(),
            final(self).size() == old(self).size(),
            final(self).cars().len() == old(self).cars().len(),
            forall|i: int|
                0 <= i < old(self).cars().len() ==> (#[trigger] final(self).cars()[i]).load() == old(
                    self,
                ).cars()[i].load(),
            final(self).term_a() == old(self).term_a(),
            final(self).term_b() == old(self).term_b(),
            final(self).quota() == old(self).quota(),
            old(self).cars().len() == 0 ==> final(self).rail() == old(self).rail(),
            (exists|rails: Seq<Seq<Segment>>|
                {
                    &&& ticks(old(self).cars(), final(self).cars(), rails, old(self).term_a().id(), old(self).term_b().id())
                    &&& rails[0] == old(self).rail()
                    &&& rails.last() == final(self).rail()
                }),
    {
        let len = self.fleet.len();
        let ghost mut rails: Seq<Seq<Segment>> = seq![old(self).rail()];
        let mut i: usize = 0;
        while i < len
            invariant
                self.wf(),
                self.size() == old(self).size(),
                len == self.cars().len(),
                len == old(self).cars().len(),
                i <= len,
                forall|k: int| 0 <= k < len ==> (#[trigger] self.cars()[k]).load() == old(self).cars()[k].load(),
                self.term_a() == old(self).term_a(),
                self.term_b() == old(self).term_b(),
                self.quota() == old(self).quota(),
                old(self).cars().len() == 0 ==> self.rail() == old(self).rail(),
                rails.len() == i + 1,
                rails[0] == old(self).rail(),
                rails[i as int] == self.rail(),
                forall|k: int|
                    0 <= k < i ==> tick(#[trigger] old(self).cars()[k], self.cars()[k], rails[k], rails[k + 1], old(self).term_a().id(), old(self).term_b().id()),
                forall|k: int| i <= k < len ==> #[trigger] self.cars()[k] == old(self).cars()[k],
            decreases len - i,
        {
            let ghost rail0 = self.rail();
            let ghost cars0 = self.cars();
            let ghost n = self.size();
            let ta = self.terminus_a.get_station_id();
            let tb = self.terminus_b.get_station_id();
            let rlen = self.railway.len();
            let train = self.fleet.car_mut(i);
            assert(car_ok(cars0[i as int], rail0, n));
            let ghost c0 = *train;
            if train.run_step() {
                let dir = train.get_direction();
                let curr = train.get_current_segment();
                if let Some(NextStepInfo { time, kind, loc }) = self.railway.next_step(curr, dir) {
                    proof {
                        lemma_advanced_kinds(rail0, curr as int, dir);
                        let nx = next_index(curr as int, dir);
                        assert(kind_ok(rail0[nx].info(dir).kind, n));
                    }
                    train.next_step(time, kind, loc);
                    if let SegmentType::Terminus(_) = kind {
                        let heading = match train.get_direction() {
                            LineDirection::DirectionA => ta,
                            LineDirection::DirectionB => tb,
                        };
                        train.set_destination(heading);
                    }
                    proof {
                        let nx = next_index(curr as int, dir);
                        if dir == LineDirection::DirectionA && nx == 0 {
                            assert(rail0[0].info(LineDirection::DirectionA).kind is Terminus);
                        }
                        if dir == LineDirection::DirectionB && nx == rail0.len() - 1 {
                            assert(rail0.last().info(LineDirection::DirectionB).kind is Terminus);
                        }
                        let c = *train;
                        assert(0 <= nx < rail0.len());
                        match kind {
                            SegmentType::Station(_) => {},
                            SegmentType::Terminus(_) => {},
                            SegmentType::Line => {},
                        }
                        assert(c.loc().seg() == nx);
                        assert(car_ok(c, self.railway@, n));
                        assert(tick(c0, c, rail0, self.railway@, ta, tb));
                    }
                } else {
                    assert(tick(c0, *train, rail0, self.railway@, ta, tb));
                }
            } else {
                assert(tick(c0, *train, rail0, self.railway@, ta, tb));
            }
            proof {
                let r = self.rail();
                rails = rails.push(r);
                assert(tick(cars0[i as int], self.cars()[i as int], rail0, r, ta, tb));
                assert forall|k: int| 0 <= k < i + 1 implies tick(#[trigger] old(self).cars()[k], self.cars()[k], rails[k], rails[k + 1], old(self).term_a().id(), old(self).term_b().id()) by {
                    if k < i {
                        assert(self.cars()[k] == cars0[k]);
                        assert(rails[k] == rails.drop_last()[k]);
                    }
                }
                assert forall|k: int| i + 1 <= k < len implies #[trigger] self.cars()[k] == old(self).cars()[k] by {
                    assert(self.cars()[k] == cars0[k]);
                }
                assert(r.len() == rail0.len());
                assert(r[0].info(LineDirection::DirectionA).kind == rail0[0].info(LineDirection::DirectionA).kind);
                assert(r[r.len() - 1].info(LineDirection::DirectionB).kind == rail0[rail0.len() - 1].info(LineDirection::DirectionB).kind);
                assert forall|g: int, d: LineDirection| 0 <= g < r.len() implies kind_ok(#[trigger] r[g].info(d).kind, n) by {
                    assert(r[g].info(d).kind == rail0[g].info(d).kind);
                    assert(kind_ok(rail0[g].info(d).kind, n));
                }
                assert forall|k: int| 0 <= k < self.cars().len() implies car_ok(#[trigger] self.cars()[k], r, n) by {
                    if k != i {
                        assert(self.cars()[k] == cars0[k]);
                    }
                }
            }
            i = i + 1;
        }
        assert(ticks(old(self).cars(), self.cars(), rails, old(self).term_a().id(), old(self).term_b().id()));
        assert(rails.last() == self.rail());
    }

    /// Try to put a train into service in each direction, first `DirectionA`.
    fn start_train(&mut self)
        requires
            old(self).wf(),
        ensures
            final(self).wf(),
            final(self).size() == old(self).size(),
            final(self).cars().len() >= old(self).cars().len(),
            final(self).cars().len() <= old(self).cars().len() + 2,
            forall|i: int|
                0 <= i < old(self).cars().len() ==> (#[trigger] final(self).cars()[i]) == old(self).cars()[i],
            forall|i: int|
                old(self).cars().len() <= i < final(self).cars().len() ==> total(
                    (#[trigger] final(self).cars()[i]).load(),
                ) == 0,
            final(self).term_a().id() == old(self).term_a().id(),
            final(self).term_b().id() == old(self).term_b().id(),
            final(self).rail() == old(self).rail(),
            final(self).quota().target() == old(self).quota().target(),
            forall|i: int|
                old(self).cars().len() <= i < final(self).cars().len() ==> final(self).fresh_train(
                    #[trigger] final(self).cars()[i],
                ),
            final(self).new_trains_ordered(old(self).cars().len() as int),
            final(self).term_a().cadence() == old(self).term_a().cadence(),
            final(self).term_b().cadence() == old(self).term_b().cadence(),
            final(self).term_a().depo().target() == old(self).term_a().depo().target(),
            final(self).term_b().depo().target() == old(self).term_b().depo().target(),
            final(self).term_b().depo().count_so_far() == old(self).term_b().depo().count_so_far()
                + final(self).new_in(old(self).cars().len() as int, LineDirection::DirectionA),
            final(self).term_a().depo().count_so_far() == old(self).term_a().depo().count_so_far()
                + final(self).new_in(old(self).cars().len() as int, LineDirection::DirectionB),
            ({
                let both = old(self).may_start(LineDirection::DirectionA) && old(self).may_start(
                    LineDirection::DirectionB,
                ) && old(self).quota().count_so_far() + 2 <= old(self).quota().target();
                both ==> final(self).cars().len() == old(self).cars().len() + 2
            }),
    {
        let ghost l0 = old(self).cars().len() as int;
        self.try_start_new_train(LineDirection::DirectionA);
        let ghost mid = self.cars();
        self.try_start_new_train(LineDirection::DirectionB);
        proof {
            let c = self.cars();
            if mid.len() > l0 {
                assert(c[l0].dir() == LineDirection::DirectionA);
            } else {
                assert forall|k: int| l0 <= k < c.len() implies #[trigger] c[k].dir() != LineDirection::DirectionA by {
                    assert(c[k].dir() == LineDirection::DirectionB);
                }
            }
            if c.len() > mid.len() {
                assert(c[c.len() - 1].dir() == LineDirection::DirectionB);
            } else {
                assert forall|k: int| l0 <= k < c.len() implies #[trigger] c[k].dir() != LineDirection::DirectionB by {
                    assert(c[k] == mid[k]);
                }
            }
        }
    }

    /// Put a train into service in `dir` when one may start.
    fn try_start_new_train(&mut self, dir: LineDirection)
        requires
            old(self).wf(),
        ensures
            final(self).wf(),
            final(self).size() == old(self).size(),
            old(self).may_start(dir) ==> final(self).cars().len() == old(self).cars().len() + 1,
            !old(self).may_start(dir) ==> final(self).cars() == old(self).cars(),
            forall|i: int|
                0 <= i < old(self).cars().len() ==> (#[trigger] final(self).cars()[i]) == old(self).cars()[i],
            forall|i: int|
                old(self).cars().len() <= i < final(self).cars().len() ==> total(
                    (#[trigger] final(self).cars()[i]).load(),
                ) == 0,
            forall|i: int|
                old(self).cars().len() <= i < final(self).cars().len() ==> final(self).fresh_train(
                    #[trigger] final(self).cars()[i],
                ) && final(self).cars()[i].dir() == dir,
            final(self).rail() == old(self).rail(),
            final(self).term_a().id() == old(self).term_a().id(),
            final(self).term_b().id() == old(self).term_b().id(),
            old(self).may_start(dir) ==> final(self).quota().count_so_far() == old(self).quota().count_so_far() + 1,
            !old(self).may_start(dir) ==> final(self).quota() == old(self).quota(),
            final(self).quota().target() == old(self).quota().target(),
            final(self).start_terminus(opposite(dir)) == old(self).start_terminus(opposite(dir)),
            final(self).start_terminus(dir).id() == old(self).start_terminus(dir).id(),
            final(self).start_terminus(dir).cadence() == old(self).start_terminus(dir).cadence(),
            final(self).start_terminus(dir).depo().target() == old(self).start_terminus(dir).depo().target(),
            final(self).start_terminus(dir).depo().count_so_far() == old(self).start_terminus(dir).depo().count_so_far()
                + if old(self).may_start(dir) {
                1int
            } else {
                0int
            },
    {
        if self.can_start_new_train(dir) {
            self.start_new_train(dir);
        }
    }

    /// Whether a train may be put into service in `dir`.
    fn can_start_new_train(&self, dir: LineDirection) -> (r: bool)
        requires
            self.wf(),
        ensures
            r == self.may_start(dir),
    {
        if self.train_counter.is_done() {
            return false;
        }
        let start = self.get_terminus_index(dir);
        if !self.railway.get_segment(start).is_free(dir) {
            return false;
        }
        self.get_terminus(dir).can_start_new_train()
    }

    /// Put a train into service in `dir`: it leaves the deposit of the
    /// starting terminus, stands at its segment and heads to the other one.
    fn start_new_train(&mut self, dir: LineDirection)
        requires
            old(self).wf(),
            !old(self).quota().done(),
            !old(self).start_terminus(dir).depo().done(),
        ensures
            final(self).wf(),
            final(self).size() == old(self).size(),
            final(self).cars().len() == old(self).cars().len() + 1,
            final(self).cars().drop_last() == old(self).cars(),
            ({
                let c = final(self).cars().last();
                &&& c.dir() == dir
                &&& c.loc() == (CarLocation::Station {
                    segment: old(self).start_index(dir) as usize,
                    station: old(self).start_terminus(dir).id(),
                })
                &&& c.dest() == old(self).end_terminus(dir).id()
                &&& c.countdown().count_so_far() == 0
                &&& c.countdown().target() == old(self).rail()[old(self).start_index(dir)].info(dir).duration
                &&& total(c.load()) == 0
            }),
            final(self).start_terminus(dir).id() == old(self).start_terminus(dir).id(),
            final(self).start_terminus(dir).cadence() == old(self).start_terminus(dir).cadence(),
            final(self).start_terminus(dir).depo().target() == old(self).start_terminus(dir).depo().target(),
            final(self).start_terminus(dir).depo().count_so_far() == old(self).start_terminus(dir).depo().count_so_far() + 1,
            final(self).rail() == old(self).rail(),
            final(self).term_a().id() == old(self).term_a().id(),
            final(self).term_b().id() == old(self).term_b().id(),
            final(self).quota().target() == old(self).quota().target(),
            final(self).quota().count_so_far() == old(self).quota().count_so_far() + 1,
            final(self).start_terminus(opposite(dir)) == old(self).start_terminus(opposite(dir)),
    {
        let ghost n = self.size();
        match dir {
            LineDirection::DirectionA => self.terminus_b.add_new_train(),
            LineDirection::DirectionB => self.terminus_a.add_new_train(),
        }
        self.train_counter.step();
        let station_index = self.get_terminus(dir).get_station_id();
        let destination = match dir {
            LineDirection::DirectionA => self.terminus_a.get_station_id(),
            LineDirection::DirectionB => self.terminus_b.get_station_id(),
        };
        let segment_index = self.get_terminus_index(dir);
        let location = CarLocation::station(segment_index, station_index);
        let duration = self.railway.get_segment_duration(dir, segment_index);
        let car = Car::new(destination, location, dir, self.network_size, duration);
        proof {
            crate::station::lemma_total_empty::<crate::passenger::Passenger<T>>(n);
        }
        self.fleet.start_train(car);
        assert(self.cars().drop_last() =~= old(self).cars());
        assert forall|i: int| 0 <= i < self.cars().len() implies car_ok(#[trigger] self.cars()[i], self.rail(), self.size()) by {
            if i < old(self).cars().len() {
                assert(self.cars()[i] == old(self).cars()[i]);
            }
        }
    }

    /// The segment where trains running in `dir` are put into service.
    fn get_terminus_index(&self, dir: LineDirection) -> (r: usize)
        requires
            self.rail().len() > 0,
        ensures
            r == self.start_index(dir),
    {
        dir.choose_direction(self.railway.last_index(), 0)
    }

    /// The terminus where trains running in `dir` are put into service.
    fn get_terminus(&self, dir: LineDirection) -> (r: &Terminus)
        ensures
            *r == self.start_terminus(dir),
    {
        dir.choose_direction(&self.terminus_b, &self.terminus_a)
    }
}

/// Replacing one station changes the total by the difference.
pub proof fn lemma_stations_total_update<'a, T>(stats: Seq<Station<'a, T>>, s: int, x: Station<'a, T>)
    requires
        0 <= s < stats.len(),
    ensures
        stations_total(stats.update(s, x)) == stations_total(stats) - total(stats[s].waiting()) + total(
            x.waiting(),
        ),
    decreases stats.len(),
{
    if s == stats.len() - 1 {
        assert(stats.update(s, x).drop_last() =~= stats.drop_last());
    } else {
        lemma_stations_total_update(stats.drop_last(), s, x);
        assert(stats.update(s, x).drop_last() =~= stats.drop_last().update(s, x));
    }
}

/// Replacing one train changes the total by the difference.
pub proof fn lemma_cars_total_update<T>(cars: Seq<Car<T>>, i: int, x: Car<T>)
    requires
        0 <= i < cars.len(),
    ensures
        cars_total(cars.update(i, x)) == cars_total(cars) - total(cars[i].load()) + total(x.load()),
    decreases cars.len(),
{
    if i == cars.len() - 1 {
        assert(cars.update(i, x).drop_last() =~= cars.drop_last());
    } else {
        lemma_cars_total_update(cars.drop_last(), i, x);
        assert(cars.update(i, x).drop_last() =~= cars.drop_last().update(i, x));
    }
}

/// Trains added with nobody on board, after trains whose loads are kept,
/// leave the total as it was.
pub proof fn lemma_cars_total_extend<T>(old_cars: Seq<Car<T>>, new_cars: Seq<Car<T>>)
    requires
        new_cars.len() >= old_cars.len(),
        forall|i: int| 0 <= i < old_cars.len() ==> (#[trigger] new_cars[i]).load() == old_cars[i].load(),
        forall|i: int| old_cars.len() <= i < new_cars.len() ==> total((#[trigger] new_cars[i]).load()) == 0,
    ensures
        cars_total(new_cars) == cars_total(old_cars),
    decreases new_cars.len(),
{
    if new_cars.len() > old_cars.len() {
        lemma_cars_total_extend(old_cars, new_cars.drop_last());
        assert(total(new_cars[new_cars.len() - 1].load()) == 0);
    } else if old_cars.len() > 0 {
        lemma_cars_total_extend(old_cars.drop_last(), new_cars.drop_last());
        assert(new_cars[new_cars.len() - 1].load() == old_cars[old_cars.len() - 1].load());
    }
}

/// Train `c` becomes `c2` and the stations `stats` become `stats2` when the
/// train is served: at a station, that station alone changes as `served`
/// says; elsewhere nothing changes.
pub open spec fn visit<'a, T>(stats: Seq<Station<'a, T>>, stats2: Seq<Station<'a, T>>, c: Car<T>, c2: Car<T>) -> bool {
    if c.loc() is Station {
        let s = c.loc()->station as int;
        &&& 0 <= s < stats.len()
        &&& stats2 == stats.update(s, stats2[s])
        &&& served(stats[s], stats2[s], c, c2)
    } else {
        &&& stats2 == stats
        &&& c2.load() == c.load()
        &&& c2.loc() == c.loc()
        &&& c2.dir() == c.dir()
        &&& c2.dest() == c.dest()
        &&& c2.countdown() == c.countdown()
    }
}

/// One step of a line: the line invariant holds again; every running train
/// ticks, in fleet order; new trains stand fresh at their start termini,
/// `DirectionA` first; the deposits and cadences count as a step says.
pub open spec fn stepped<T>(l: Line<T>, l2: Line<T>) -> bool {
    &&& l2.wf()
    &&& l2.size() == l.size()
    &&& l2.cars().len() >= l.cars().len()
    &&& l2.cars().len() <= l.cars().len() + 2
    &&& forall|i: int|
            0 <= i < l.cars().len() ==> (#[trigger] l2.cars()[i]).load() == l.cars()[i].load()
    &&& forall|i: int|
            l.cars().len() <= i < l2.cars().len() ==> total(
                (#[trigger] l2.cars()[i]).load(),
            ) == 0
    &&& l2.term_a().id() == l.term_a().id()
    &&& l2.term_b().id() == l.term_b().id()
    &&& cars_total(l2.cars()) == cars_total(l.cars())
    &&& l2.quota().target() == l.quota().target()
    &&& l2.cars().len() <= l2.quota().target()
    &&& exists|rails: Seq<Seq<Segment>>|
            {
                &&& ticks(
                    l.cars(),
                    l2.cars().subrange(0, l.cars().len() as int),
                    rails,
                    l.term_a().id(),
                    l.term_b().id(),
                )
                &&& rails[0] == l.rail()
                &&& rails.last() == l2.rail()
            }
    &&& forall|i: int|
            l.cars().len() <= i < l2.cars().len() ==> l2.fresh_train(
                #[trigger] l2.cars()[i],
            )
    &&& l2.new_trains_ordered(l.cars().len() as int)
    &&& l2.term_b().depo().count_so_far() == l.term_b().depo().count_so_far()
            + l2.new_in(l.cars().len() as int, LineDirection::DirectionA)
    &&& l2.term_a().depo().count_so_far() == l.term_a().depo().count_so_far()
            + l2.new_in(l.cars().len() as int, LineDirection::DirectionB)
    &&& l2.term_a().depo().target() == l.term_a().depo().target()
    &&& l2.term_b().depo().target() == l.term_b().depo().target()
    &&& l2.term_a().cadence().target() == l.term_a().cadence().target()
    &&& l2.term_b().cadence().target() == l.term_b().cadence().target()
    &&& l2.term_a().cadence().count_so_far() == if l.term_a().cadence().done() {
            0
        } else {
            l.term_a().cadence().count_so_far() + 1
        }
    &&& l2.term_b().cadence().count_so_far() == if l.term_b().cadence().done() {
            0
        } else {
            l.term_b().cadence().count_so_far() + 1
        }
    &&& ({
            let fresh = l.cars().len() == 0 && l.may_start(LineDirection::DirectionA)
                && l.may_start(LineDirection::DirectionB) && l.quota().count_so_far() + 2
                <= l.quota().target();
            fresh ==> l2.cars().len() == 2
        })
}

/// Passenger exchange on a line: every train, in fleet order, is served at
/// the station where it stands, the stations passing through the states of
/// a chain; nothing else about the line changes.
pub open spec fn boarded<'a, T>(l: Line<T>, l2: Line<T>, stats: Seq<Station<'a, T>>, stats2: Seq<Station<'a, T>>) -> bool {
    &&& l2.wf()
    &&& l2.size() == l.size()
    &&& l2.cars().len() == l.cars().len()
    &&& l2.term_a() == l.term_a()
    &&& l2.term_b() == l.term_b()
    &&& l2.rail() == l.rail()
    &&& l2.quota() == l.quota()
    &&& stats2.len() == stats.len()
    &&& forall|s: int|
            0 <= s < stats2.len() ==> {
                &&& (#[trigger] stats2[s]).wf(l.size())
                &&& stats2[s].id() == s
            }
    &&& forall|i: int|
            0 <= i < l2.cars().len() ==> {
                &&& (#[trigger] l2.cars()[i]).loc() == l.cars()[i].loc()
                &&& l2.cars()[i].dir() == l.cars()[i].dir()
                &&& l2.cars()[i].dest() == l.cars()[i].dest()
                &&& l2.cars()[i].countdown() == l.cars()[i].countdown()
                &&& !(l.cars()[i].loc() is Station) ==> l2.cars()[i].load() == l.cars()[i].load()
            }
    &&& stations_total(stats2) + cars_total(l2.cars()) == stations_total(stats)
            + cars_total(l.cars())
    &&& exists|chain: Seq<Seq<Station<'a, T>>>|
            {
                &&& chain.len() == l.cars().len() + 1
                &&& chain[0] == stats
                &&& chain.last() == stats2
                &&& forall|k: int|
                    0 <= k < l.cars().len() ==> visit(
                        chain[k],
                        chain[k + 1],
                        #[trigger] l.cars()[k],
                        l2.cars()[k],
                    )
            }
}

/// The passengers waiting over all stations.
pub open spec fn stations_total<'a, T>(stats: Seq<Station<'a, T>>) -> int
    decreases stats.len(),
{
    if stats.len() == 0 {
        0
    } else {
        stations_total(stats.drop_last()) + total(stats.last().waiting())
    }
}

/// The passengers on board over all trains.
pub open spec fn cars_total<T>(cars: Seq<Car<T>>) -> int
    decreases cars.len(),
{
    if cars.len() == 0 {
        0
    } else {
        cars_total(cars.drop_last()) + total(cars.last().load())
    }
}

} // verus!
