//! Passengers, the callbacks they carry, and the factory that lets them
//! into stations step by step.
use crate::index_list::{Indexer, push_all, total};
use vstd::prelude::*;

verus! {

/// Hooks called when a passenger enters a station and when it leaves a
/// train. Both do nothing unless an implementation says otherwise.
pub trait PassengerAction {
    fn enter_station(&mut self, station: usize) {
    }

    fn leave_train(&mut self, station: usize) {
    }
}

/// Makes the callback of each new passenger.
pub trait PassengerActionFactory<T: PassengerAction> {
    fn factory(&mut self) -> T;
}

impl PassengerAction for () {
}

impl PassengerActionFactory<()> for () {
    fn factory(&mut self) -> () {
        ()
    }
}

/// The number of passengers that travel from one origin to one
/// destination at a step.
pub trait TrafficGenerator {
    fn next_traffic_flow(&self, step: u32) -> u32;
}

/// A constant flow.
impl TrafficGenerator for u32 {
    fn next_traffic_flow(&self, step: u32) -> u32 {
        *self
    }
}

/// A passenger on a trip from `start` to `dest`. `next_dir` is the terminus
/// toward which the next train to board runs, `next_stop` the station where
/// to leave it.
#[derive(Debug)]
pub struct Passenger<T> {
    id: u32,
    start: usize,
    next_dir: usize,
    next_stop: usize,
    dest: usize,
    callback: T,
}

/// Two passengers are the same traveller on the same trip.
pub open spec fn same_trip<T>(a: Passenger<T>, b: Passenger<T>) -> bool {
    &&& a.uid() == b.uid()
    &&& a.origin() == b.origin()
    &&& a.destination() == b.destination()
}

impl<T> Passenger<T> {
    pub closed spec fn uid(&self) -> u32 {
        self.id
    }

    pub closed spec fn origin(&self) -> usize {
        self.start
    }

    pub closed spec fn destination(&self) -> usize {
        self.dest
    }

    pub closed spec fn direction(&self) -> usize {
        self.next_dir
    }

    pub closed spec fn stop(&self) -> usize {
        self.next_stop
    }


    pub fn new(id: u32, start: usize, dest: usize, callback: T) -> (r: Self)
        ensures
            r.uid() == id,
            r.origin() == start,
            r.destination() == dest,
            r.direction() == 0,
            r.stop() == 0,
    {
        Self { id, start, next_dir: 0, next_stop: 0, dest, callback }
    }

    /// The passenger leaves its train at `station`.
    pub fn is_destination(&self, station: usize) -> (r: bool)
        ensures
            r == (self.stop() == station),
    {
        self.next_stop == station
    }

    /// The trip ends at `station`.
    pub fn is_final_destination(&self, station: usize) -> (r: bool)
        ensures
            r == (self.destination() == station),
    {
        self.dest == station
    }

    pub fn set_next_direction(self, dir: usize) -> (r: Self)
        ensures
            same_trip(r, self),
            r.direction() == dir,
            r.stop() == self.stop(),
    {
        let mut p = self;
        p.next_dir = dir;
        p
    }

    pub fn set_next_stop(self, stop: usize) -> (r: Self)
        ensures
            same_trip(r, self),
            r.direction() == self.direction(),
            r.stop() == stop,
    {
        let mut p = self;
        p.next_stop = stop;
        p
    }

    pub fn set_id(self, id: u32) -> (r: Self)
        ensures
            r.uid() == id,
            r.origin() == self.origin(),
            r.destination() == self.destination(),
            r.direction() == self.direction(),
            r.stop() == self.stop(),
    {
        let mut p = self;
        p.id = id;
        p
    }

    pub fn get_destination(&self) -> (r: usize)
        ensures
            r == self.destination(),
    {
        self.dest
    }

    pub fn get_next_direction(&self) -> (r: usize)
        ensures
            r == self.direction(),
    {
        self.next_dir
    }

    pub fn get_next_stop(&self) -> (r: usize)
        ensures
            r == self.stop(),
    {
        self.next_stop
    }

}

impl<T: PassengerAction> Passenger<T> {
    /// Runs the callback for entering a station.
    pub fn enter_station(self) -> (r: Self)
        ensures
            same_trip(r, self),
            r.direction() == self.direction(),
            r.stop() == self.stop(),
    {
        let mut p = self;
        let s = p.start;
        p.callback.enter_station(s);
        p
    }

    /// Runs the callback for leaving a train.
    pub fn leave_train(self) -> (r: Self)
        ensures
            same_trip(r, self),
            r.direction() == self.direction(),
            r.stop() == self.stop(),
    {
        let mut p = self;
        let s = p.next_stop;
        p.callback.leave_train(s);
        p
    }
}

/// Buckets passengers by the station where they leave the train.
#[derive(Debug, Default)]
pub struct PassengerNextStopIndex {}

impl<T> Indexer<Passenger<T>> for PassengerNextStopIndex {
    open spec fn spec_index(&self, p: Passenger<T>) -> int {
        p.stop() as int
    }

    fn index(&self, p: &Passenger<T>) -> (r: usize) {
        p.get_next_stop()
    }
}

/// Buckets passengers by the direction of the train they wait for.
#[derive(Debug, Default)]
pub struct PassengerNextDirectionIndex {}

impl<T> Indexer<Passenger<T>> for PassengerNextDirectionIndex {
    open spec fn spec_index(&self, p: Passenger<T>) -> int {
        p.direction() as int
    }

    fn index(&self, p: &Passenger<T>) -> (r: usize) {
        p.get_next_direction()
    }
}

} // verus!

verus! {

/// Lets passengers into the stations at every step, as many for each
/// origin and destination as its traffic generator says; no generator, no
/// flow.
pub struct PassengerFactory<T> {
    traffic_generator: Vec<Vec<Option<T>>>,
}

impl<T: TrafficGenerator> PassengerFactory<T> {
    /// The generators, by origin then destination.
    pub closed spec fn generators(&self) -> Seq<Seq<Option<T>>> {
        self.traffic_generator@.map_values(|r: Vec<Option<T>>| r@)
    }

    pub fn new(traffic_generator: Vec<Vec<Option<T>>>) -> (r: Self)
        ensures
            r.generators() == traffic_generator@.map_values(|r: Vec<Option<T>>| r@),
    {
        Self { traffic_generator }
    }

    /// The flows of step `step`, origin by origin: the count each generator
    /// draws, 0 where there is none.
    pub fn draw_flows(&self, step: u32) -> (r: Vec<Vec<u32>>)
        ensures
            drawn(r@, self.generators()),
    {
        let mut out: Vec<Vec<u32>> = Vec::new();
        let mut i: usize = 0;
        while i < self.traffic_generator.len()
            invariant
                i <= self.generators().len(),
                out@.len() == i,
                forall|q: int|
                    0 <= q < i ==> {
                        &&& (#[trigger] out@[q])@.len() == self.generators()[q].len()
                        &&& forall|j: int|
                            0 <= j < out@[q]@.len() && self.generators()[q][j] is None ==> out@[q]@[j] == 0
                    },
            decreases self.traffic_generator.len() - i,
        {
            let gens = &self.traffic_generator[i];
            assert(gens@ == self.generators()[i as int]);
            let mut row: Vec<u32> = Vec::new();
            let mut j: usize = 0;
            while j < gens.len()
                invariant
                    j <= gens@.len(),
                    row@.len() == j,
                    forall|q: int| 0 <= q < j && gens@[q] is None ==> row@[q] == 0,
                decreases gens.len() - j,
            {
                let flow = match &gens[j] {
                    Some(g) => g.next_traffic_flow(step),
                    None => 0,
                };
                row.push(flow);
                j = j + 1;
            }
            out.push(row);
            i = i + 1;
        }
        out
    }

    /// Lets in the passengers of step `step`, origin by origin, destination
    /// by destination, and returns how many entered.
    pub fn generate_traffic<'a, Pc: PassengerAction, Tf: PassengerActionFactory<Pc>>(
        &self,
        step: u32,
        stations: &mut Vec<crate::station::Station<'a, Pc>>,
        tf: &mut Tf,
    ) -> (r: u128)
        requires
            old(stations)@.len() * old(stations)@.len() <= isize::MAX,
            self.generators().len() == old(stations)@.len(),
            forall|i: int| 0 <= i < self.generators().len() ==> (#[trigger] self.generators()[i]).len() == old(stations)@.len(),
            forall|s: int|
                0 <= s < old(stations)@.len() ==> {
                    &&& (#[trigger] old(stations)@[s]).wf(old(stations)@.len() as nat)
                    &&& old(stations)@[s].id() == s
                },
        ensures
            (exists|flows: Seq<Vec<u32>>|
                {
                    &&& drawn(flows, self.generators())
                    &&& admitted(old(stations)@, final(stations)@, flows)
                    &&& r == flows_sum(flows)
                }),
    {
        let flows = self.draw_flows(step);
        admit_traffic(&flows, stations, tf)
    }
}

/// `flows` has the shape of the generators and is 0 wherever there is no
/// generator.
pub open spec fn drawn<T>(flows: Seq<Vec<u32>>, gens: Seq<Seq<Option<T>>>) -> bool {
    &&& flows.len() == gens.len()
    &&& forall|i: int|
        0 <= i < flows.len() ==> {
            &&& (#[trigger] flows[i])@.len() == gens[i].len()
            &&& forall|j: int| 0 <= j < flows[i]@.len() && gens[i][j] is None ==> flows[i]@[j] == 0
        }
}

/// The destinations of the passengers of a row of flows, in order: `row[j]`
/// times `j`, for each `j` in turn.
pub open spec fn trip_dests(row: Seq<u32>) -> Seq<usize>
    decreases row.len(),
{
    if row.len() == 0 {
        seq![]
    } else {
        trip_dests(row.drop_last()) + Seq::new(row.last() as nat, |k: int| (row.len() - 1) as usize)
    }
}

/// `q` are new passengers at station `s`, bound for `dests` in order, each
/// told its direction and next stop by the tables `d` and `i`.
pub open spec fn entered<T>(q: Seq<Passenger<T>>, s: usize, dests: Seq<usize>, d: Seq<Seq<usize>>, i: Seq<Seq<usize>>) -> bool {
    &&& q.len() == dests.len()
    &&& forall|k: int|
        0 <= k < q.len() ==> {
            &&& (#[trigger] q[k]).uid() == 0
            &&& q[k].origin() == s
            &&& q[k].destination() == dests[k]
            &&& q[k].direction() == d[s as int][dests[k] as int]
            &&& q[k].stop() == i[s as int][dests[k] as int]
        }
}

/// Station `st` becomes `st2` when the passengers of a row of flows enter
/// it, in order of destination.
pub open spec fn arrived<'a, T>(st: crate::station::Station<'a, T>, st2: crate::station::Station<'a, T>, row: Seq<u32>) -> bool {
    exists|q: Seq<Passenger<T>>|
        entered(q, st.id(), trip_dests(row), st.directions(), st.interchanges()) && st2.waiting() == push_all(
            PassengerNextDirectionIndex {},
            st.waiting(),
            q,
        )
}

/// The stations `stats` become `stats2` when the flows are let in: each
/// station `s` gains the sum of row `s` of the flows, and stays a well
/// formed station with the same tables.
pub open spec fn admitted<'a, T>(
    stats: Seq<crate::station::Station<'a, T>>,
    stats2: Seq<crate::station::Station<'a, T>>,
    flows: Seq<Vec<u32>>,
) -> bool {
    &&& stats2.len() == stats.len()
    &&& forall|s: int|
        0 <= s < stats2.len() ==> {
            &&& (#[trigger] stats2[s]).wf(stats.len() as nat)
            &&& stats2[s].id() == s
            &&& stats2[s].directions() == stats[s].directions()
            &&& stats2[s].interchanges() == stats[s].interchanges()
            &&& total(stats2[s].waiting()) == total(stats[s].waiting()) + row_sum(flows[s]@)
            &&& arrived(stats[s], stats2[s], flows[s]@)
        }
    &&& crate::line::stations_total(stats2) == crate::line::stations_total(stats) + flows_sum(flows)
}

/// The sum of a row of flows.
pub open spec fn row_sum(row: Seq<u32>) -> int
    decreases row.len(),
{
    if row.len() == 0 {
        0
    } else {
        row_sum(row.drop_last()) + row.last()
    }
}

/// The sum of all flows.
pub open spec fn flows_sum(flows: Seq<Vec<u32>>) -> int
    decreases flows.len(),
{
    if flows.len() == 0 {
        0
    } else {
        flows_sum(flows.drop_last()) + row_sum(flows.last()@)
    }
}

proof fn lemma_row_sum_bound(row: Seq<u32>)
    ensures
        0 <= row_sum(row) <= row.len() * (u32::MAX as int),
    decreases row.len(),
{
    if row.len() > 0 {
        lemma_row_sum_bound(row.drop_last());
    }
}

/// Lets in, at every station `i`, `flows[i][j]` passengers bound for each
/// station `j`, in order of destination; returns how many entered, which is
/// the sum of the flows, and every station gains the sum of its row.
pub fn admit_traffic<'a, Pc: PassengerAction, Tf: PassengerActionFactory<Pc>>(
    flows: &Vec<Vec<u32>>,
    stations: &mut Vec<crate::station::Station<'a, Pc>>,
    tf: &mut Tf,
) -> (r: u128)
    requires
        old(stations)@.len() * old(stations)@.len() <= isize::MAX,
        flows@.len() == old(stations)@.len(),
        forall|i: int| 0 <= i < flows@.len() ==> (#[trigger] flows@[i])@.len() == old(stations)@.len(),
        forall|s: int|
            0 <= s < old(stations)@.len() ==> {
                &&& (#[trigger] old(stations)@[s]).wf(old(stations)@.len() as nat)
                &&& old(stations)@[s].id() == s
            },
    ensures
        admitted(old(stations)@, final(stations)@, flows@),
        r == flows_sum(flows@),
{
    let n = stations.len();
    let mut generated: u128 = 0;
    let mut i: usize = 0;
    while i < n
        invariant
            n == stations@.len(),
            n == old(stations)@.len(),
            n * n <= isize::MAX,
            i <= n,
            flows@.len() == n,
            forall|q: int| 0 <= q < n ==> (#[trigger] flows@[q])@.len() == n,
            generated == flows_sum(flows@.subrange(0, i as int)),
            generated <= i * n * (u32::MAX as int),
            forall|s: int|
                0 <= s < n ==> {
                    &&& (#[trigger] stations@[s]).wf(n as nat)
                    &&& stations@[s].id() == s
                    &&& stations@[s].directions() == old(stations)@[s].directions()
                    &&& stations@[s].interchanges() == old(stations)@[s].interchanges()
                    &&& total(stations@[s].waiting()) == total(old(stations)@[s].waiting()) + if s < i {
                        row_sum(flows@[s]@)
                    } else {
                        0
                    }
                },
            crate::line::stations_total(stations@) == crate::line::stations_total(old(stations)@) + generated,
            forall|s: int| 0 <= s < i ==> arrived(#[trigger] old(stations)@[s], stations@[s], flows@[s]@),
            forall|s: int| i <= s < n ==> #[trigger] stations@[s] == old(stations)@[s],
        decreases n - i,
    {
        let row = &flows[i];
        let ghost before_row = generated;
        let ghost mut qi: Seq<Passenger<Pc>> = Seq::empty();
        let ghost st_i = stations@[i as int];
        let mut j: usize = 0;
        while j < n
            invariant
                n == stations@.len(),
                n == old(stations)@.len(),
                n * n <= isize::MAX,
                i < n,
                j <= n,
                row@ == flows@[i as int]@,
                row@.len() == n,
                generated == before_row + row_sum(row@.subrange(0, j as int)),
                before_row <= i * n * (u32::MAX as int),
                forall|s: int|
                    0 <= s < n ==> {
                        &&& (#[trigger] stations@[s]).wf(n as nat)
                        &&& stations@[s].id() == s
                        &&& stations@[s].directions() == old(stations)@[s].directions()
                        &&& stations@[s].interchanges() == old(stations)@[s].interchanges()
                        &&& total(stations@[s].waiting()) == total(old(stations)@[s].waiting()) + if s < i {
                            row_sum(flows@[s]@)
                        } else if s == i {
                            row_sum(row@.subrange(0, j as int))
                        } else {
                            0
                        }
                    },
                crate::line::stations_total(stations@) == crate::line::stations_total(old(stations)@) + generated,
                st_i == old(stations)@[i as int],
                forall|s: int| 0 <= s < i ==> arrived(#[trigger] old(stations)@[s], stations@[s], flows@[s]@),
                forall|s: int| i < s < n ==> #[trigger] stations@[s] == old(stations)@[s],
                entered(qi, i, trip_dests(row@.subrange(0, j as int)), st_i.directions(), st_i.interchanges()),
                stations@[i as int].waiting() == push_all(PassengerNextDirectionIndex {}, st_i.waiting(), qi),
            decreases n - j,
        {
            let flow = row[j];
            let ghost start = generated;
            proof {
                lemma_row_sum_bound(row@.subrange(0, j as int));
                assert(row_sum(row@.subrange(0, j as int)) <= j * (u32::MAX as int)) by (nonlinear_arith)
                    requires row_sum(row@.subrange(0, j as int)) <= row@.subrange(0, j as int).len() * (u32::MAX as int),
                        row@.subrange(0, j as int).len() == j;
            }
            let mut k: u32 = 0;
            while k < flow
                invariant
                    n == stations@.len(),
                    n == old(stations)@.len(),
                    n * n <= isize::MAX,
                    i < n,
                    j < n,
                    k <= flow,
                    flow == row@[j as int],
                    generated == start + k,
                    start == before_row + row_sum(row@.subrange(0, j as int)),
                    before_row <= i * n * (u32::MAX as int),
                    row_sum(row@.subrange(0, j as int)) <= j * (u32::MAX as int),
                    forall|s: int|
                        0 <= s < n ==> {
                            &&& (#[trigger] stations@[s]).wf(n as nat)
                            &&& stations@[s].id() == s
                            &&& stations@[s].directions() == old(stations)@[s].directions()
                            &&& stations@[s].interchanges() == old(stations)@[s].interchanges()
                            &&& total(stations@[s].waiting()) == total(old(stations)@[s].waiting()) + if s < i {
                                row_sum(flows@[s]@)
                            } else if s == i {
                                row_sum(row@.subrange(0, j as int)) + k
                            } else {
                                0
                            }
                        },
                    crate::line::stations_total(stations@) == crate::line::stations_total(old(stations)@)
                        + generated,
                    st_i == old(stations)@[i as int],
                    forall|s: int| 0 <= s < i ==> arrived(#[trigger] old(stations)@[s], stations@[s], flows@[s]@),
                    forall|s: int| i < s < n ==> #[trigger] stations@[s] == old(stations)@[s],
                    entered(
                        qi,
                        i,
                        trip_dests(row@.subrange(0, j as int)) + Seq::new(k as nat, |m: int| j),
                        st_i.directions(),
                        st_i.interchanges(),
                    ),
                    stations@[i as int].waiting() == push_all(PassengerNextDirectionIndex {}, st_i.waiting(), qi),
                decreases flow - k,
            {
                let p = Passenger::new(0, i, j, tf.factory());
                let ghost before = stations@;
                proof {
                    assert(i * n * (u32::MAX as int) + j * (u32::MAX as int) + k + 1 <= (n * n) * (u32::MAX as int)) by (nonlinear_arith)
                        requires i < n, j < n, k < u32::MAX;
                    assert((n * n) * (u32::MAX as int) <= (isize::MAX as int) * (u32::MAX as int)) by (nonlinear_arith)
                        requires n * n <= isize::MAX;
                }
                stations[i].enter_passenger(p);
                proof {
                    crate::line::lemma_stations_total_update(before, i as int, stations@[i as int]);
                    assert forall|s: int| 0 <= s < n && s != i implies #[trigger] stations@[s] == before[s] by {}
                    let w = stations@[i as int].waiting();
                    let b = st_i.directions()[i as int][j as int] as int;
                    let x = w[b].last();
                    let q2 = qi.push(x);
                    assert(q2.drop_last() =~= qi);
                    assert(w == push_all(PassengerNextDirectionIndex {}, st_i.waiting(), q2));
                    let ds = trip_dests(row@.subrange(0, j as int)) + Seq::new((k + 1) as nat, |m: int| j);
                    assert forall|m: int| 0 <= m < q2.len() implies {
                        &&& (#[trigger] q2[m]).uid() == 0
                        &&& q2[m].origin() == i
                        &&& q2[m].destination() == ds[m]
                        &&& q2[m].direction() == st_i.directions()[i as int][ds[m] as int]
                        &&& q2[m].stop() == st_i.interchanges()[i as int][ds[m] as int]
                    } by {
                        let ds0 = trip_dests(row@.subrange(0, j as int)) + Seq::new(k as nat, |m: int| j);
                        if m < qi.len() {
                            assert(q2[m] == qi[m]);
                            assert(ds[m] == ds0[m]);
                        }
                    }
                    qi = q2;
                    assert forall|s: int| 0 <= s < i implies arrived(#[trigger] old(stations)@[s], stations@[s], flows@[s]@) by {
                        assert(stations@[s] == before[s]);
                    }
                }
                generated = generated + 1;
                k = k + 1;
            }
            proof {
                let sub = row@.subrange(0, j + 1);
                assert(sub.drop_last() =~= row@.subrange(0, j as int));
                assert(sub.last() == flow);
                assert(trip_dests(sub) =~= trip_dests(row@.subrange(0, j as int)) + Seq::new(flow as nat, |m: int| j));
            }
            j = j + 1;
        }
        proof {
            assert(row@.subrange(0, n as int) =~= row@);
            assert(arrived(old(stations)@[i as int], stations@[i as int], flows@[i as int]@));
            assert forall|s: int| i + 1 <= s < n implies #[trigger] stations@[s] == old(stations)@[s] by {}
            assert(flows@.subrange(0, i + 1).drop_last() =~= flows@.subrange(0, i as int));
            lemma_row_sum_bound(row@);
            assert(before_row + row_sum(row@) <= (i + 1) * n * (u32::MAX as int)) by (nonlinear_arith)
                requires before_row <= i * n * (u32::MAX as int), row_sum(row@) <= row@.len() * (u32::MAX as int), row@.len() == n;
        }
        i = i + 1;
    }
    assert(flows@.subrange(0, n as int) =~= flows@);
    generated
}

} // verus!
