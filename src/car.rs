//! A train: where it is, where it heads, how long it still waits, and the
//! passengers it carries, bucketed by the station where they leave.
use crate::counter::Counter;
use crate::index_list::{IndexList, all_indexed, push_all};
use crate::line::{LineDirection, SegmentType, opposite};
use crate::passenger::{Passenger, PassengerAction, PassengerNextStopIndex};
use vstd::prelude::*;

verus! {

/// Where a train is: on plain track, or at a station.
#[derive(Clone, Copy, Debug, PartialEq, Eq, Structural)]
pub enum CarLocation {
    Segment { index: usize },
    Station { segment: usize, station: usize },
}

impl CarLocation {
    /// The segment index of a location.
    pub open spec fn seg(self) -> usize {
        match self {
            CarLocation::Segment { index } => index,
            CarLocation::Station { segment, .. } => segment,
        }
    }

    pub fn segment(index: usize) -> (r: Self)
        ensures
            r == (CarLocation::Segment { index }),
    {
        Self::Segment { index }
    }

    pub fn station(segment: usize, station: usize) -> (r: Self)
        ensures
            r == (CarLocation::Station { segment, station }),
    {
        Self::Station { segment, station }
    }

    /// The station of a location at a station.
    pub fn get_station(&self) -> (r: usize)
        requires
            self is Station,
        ensures
            r == self->station,
    {
        match self {
            Self::Station { station, .. } => *station,
            Self::Segment { .. } => 0,
        }
    }

    pub fn get_segment(&self) -> (r: usize)
        ensures
            r == self.seg(),
    {
        match self {
            Self::Station { segment, .. } => *segment,
            Self::Segment { index } => *index,
        }
    }
}

/// A running train.
#[derive(Debug)]
pub struct Car<T> {
    passengers: IndexList<Passenger<T>, PassengerNextStopIndex>,
    destination: usize,
    location: CarLocation,
    direction: LineDirection,
    counter: Counter,
}

impl<T> Car<T> {
    /// The terminus the train heads to.
    pub closed spec fn dest(&self) -> usize {
        self.destination
    }

    pub closed spec fn loc(&self) -> CarLocation {
        self.location
    }

    pub closed spec fn dir(&self) -> LineDirection {
        self.direction
    }

    /// The passengers on board, bucketed by the station where they leave.
    pub closed spec fn load(&self) -> Seq<Seq<Passenger<T>>> {
        self.passengers.buckets()
    }

    /// The countdown before the train may move on.
    pub closed spec fn countdown(&self) -> Counter {
        self.counter
    }
}

impl<T: PassengerAction> Car<T> {
    pub fn new(
        destination: usize,
        location: CarLocation,
        direction: LineDirection,
        network_size: usize,
        station_len: usize,
    ) -> (r: Self)
        ensures
            r.dest() == destination,
            r.loc() == location,
            r.dir() == direction,
            r.countdown().target() == station_len,
            r.countdown().count_so_far() == 0,
            r.load() == Seq::new(network_size as nat, |i: int| Seq::<Passenger<T>>::empty()),
    {
        Self {
            destination,
            location,
            direction,
            counter: Counter::new(station_len),
            passengers: IndexList::new(network_size, PassengerNextStopIndex {}),
        }
    }

    pub fn set_location(&mut self, loc: CarLocation)
        ensures
            final(self).loc() == loc,
            final(self).dest() == old(self).dest(),
            final(self).dir() == old(self).dir(),
            final(self).countdown() == old(self).countdown(),
            final(self).load() == old(self).load(),
    {
        self.location = loc;
    }

    pub fn set_destination(&mut self, destination: usize)
        ensures
            final(self).dest() == destination,
            final(self).loc() == old(self).loc(),
            final(self).dir() == old(self).dir(),
            final(self).countdown() == old(self).countdown(),
            final(self).load() == old(self).load(),
    {
        self.destination = destination;
    }

    /// Take off the passengers who leave at the current station.
    pub fn unboard_passengers(&mut self) -> (r: Vec<Passenger<T>>)
        requires
            old(self).loc() is Station,
            old(self).loc()->station < old(self).load().len(),
        ensures
            r@ == old(self).load()[old(self).loc()->station as int],
            final(self).load() == old(self).load().update(
                old(self).loc()->station as int,
                Seq::<Passenger<T>>::empty(),
            ),
            final(self).dest() == old(self).dest(),
            final(self).loc() == old(self).loc(),
            final(self).dir() == old(self).dir(),
            final(self).countdown() == old(self).countdown(),
    {
        let s = self.get_current_station();
        self.passengers.take_list(s)
    }

    /// Put the passengers of `ps` on board, in order, leaving `ps` empty.
    pub fn board_passengers(&mut self, ps: &mut Vec<Passenger<T>>)
        requires
            all_indexed(PassengerNextStopIndex {}, old(ps)@, old(self).load().len()),
        ensures
            final(self).load() == push_all(PassengerNextStopIndex {}, old(self).load(), old(ps)@),
            final(ps)@.len() == 0,
            final(self).dest() == old(self).dest(),
            final(self).loc() == old(self).loc(),
            final(self).dir() == old(self).dir(),
            final(self).countdown() == old(self).countdown(),
    {
        self.passengers.append(ps);
    }

    /// The number of passengers on board.
    pub fn passenger_count(&self) -> (r: usize)
        requires
            crate::index_list::total(self.load()) <= usize::MAX,
        ensures
            r == crate::index_list::total(self.load()),
    {
        self.passengers.len()
    }

    pub fn in_station(&self) -> (r: bool)
        ensures
            r == self.loc() is Station,
    {
        match self.location {
            CarLocation::Station { .. } => true,
            CarLocation::Segment { .. } => false,
        }
    }

    pub fn at_station(&self, s: usize) -> (r: bool)
        ensures
            r == (self.loc() is Station && self.loc()->station == s),
    {
        match self.location {
            CarLocation::Station { station, .. } => station == s,
            CarLocation::Segment { .. } => false,
        }
    }

    pub fn get_destination(&self) -> (r: usize)
        ensures
            r == self.dest(),
    {
        self.destination
    }

    pub fn change_direction(&mut self)
        ensures
            final(self).dir() == opposite(old(self).dir()),
            final(self).dest() == old(self).dest(),
            final(self).loc() == old(self).loc(),
            final(self).countdown() == old(self).countdown(),
            final(self).load() == old(self).load(),
    {
        self.direction.swap();
    }

    pub fn get_current_station(&self) -> (r: usize)
        requires
            self.loc() is Station,
        ensures
            r == self.loc()->station,
    {
        self.location.get_station()
    }

    pub fn get_current_segment(&self) -> (r: usize)
        ensures
            r == self.loc().seg(),
    {
        self.location.get_segment()
    }

    pub fn get_direction(&self) -> (r: LineDirection)
        ensures
            r == self.dir(),
    {
        self.direction
    }

    /// One tick of the countdown; `true` when it had already run out.
    pub fn run_step(&mut self) -> (r: bool)
        ensures
            r == old(self).countdown().done(),
            final(self).countdown().target() == old(self).countdown().target(),
            final(self).countdown().count_so_far() == if r {
                old(self).countdown().count_so_far()
            } else {
                old(self).countdown().count_so_far() + 1
            },
            final(self).dest() == old(self).dest(),
            final(self).loc() == old(self).loc(),
            final(self).dir() == old(self).dir(),
            final(self).load() == old(self).load(),
    {
        self.counter.step()
    }

    /// Enter a new segment: wait `value` ticks there, and turn back on a
    /// terminus.
    pub fn next_step(&mut self, value: usize, kind: SegmentType, loc: CarLocation)
        ensures
            final(self).countdown().target() == value,
            final(self).countdown().count_so_far() == 0,
            final(self).loc() == loc,
            final(self).dir() == if kind is Terminus {
                opposite(old(self).dir())
            } else {
                old(self).dir()
            },
            final(self).dest() == old(self).dest(),
            final(self).load() == old(self).load(),
    {
        self.counter = Counter::new(value);
        self.location = loc;
        self.update_state(kind);
    }

    fn update_state(&mut self, kind: SegmentType)
        ensures
            final(self).dir() == if kind is Terminus {
                opposite(old(self).dir())
            } else {
                old(self).dir()
            },
            final(self).countdown() == old(self).countdown(),
            final(self).loc() == old(self).loc(),
            final(self).dest() == old(self).dest(),
            final(self).load() == old(self).load(),
    {
        if let SegmentType::Terminus(_) = kind {
            self.direction.swap();
        }
    }
}

} // verus!
