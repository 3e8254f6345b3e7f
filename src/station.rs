//! Stations: passengers wait there bucketed by the direction of the train
//! they need, board trains heading that way, and re-enter when they alight.
use crate::build_directions::{MetroDirection, MetroInterchange};
use crate::car::Car;
use crate::index_list::{IndexList, Indexer, all_indexed, all_satisfy, consistent, push_all, push_one, total};
use crate::passenger::{Passenger, PassengerAction, PassengerNextDirectionIndex, PassengerNextStopIndex, same_trip};
use crate::path_iterator::valid_next;
use vstd::prelude::*;

verus! {

/// The passengers of a station are well placed in a network of `n`
/// stations: each waits in the bucket of its direction, and its next stop and
/// destination are stations.
pub open spec fn waiting_ok<T>(w: Seq<Seq<Passenger<T>>>, n: nat) -> bool {
    &&& w.len() == n
    &&& consistent(PassengerNextDirectionIndex {}, w)
    &&& all_satisfy(w, |p: Passenger<T>| p.stop() < n && p.destination() < n)
}

/// The passengers on board a train are well placed in a network of `n`
/// stations: each rides in the bucket of its next stop, and its destination is
/// a station.
pub open spec fn load_ok<T>(l: Seq<Seq<Passenger<T>>>, n: nat) -> bool {
    &&& l.len() == n
    &&& consistent(PassengerNextStopIndex {}, l)
    &&& all_satisfy(l, |p: Passenger<T>| p.stop() < n && p.destination() < n)
}

/// `q` are the passengers of `l`, in order, each on the same trip and told
/// its direction and next stop at station `s` by the tables `d` and `i`.
pub open spec fn refreshed<T>(
    q: Seq<Passenger<T>>,
    l: Seq<Passenger<T>>,
    d: Seq<Seq<usize>>,
    i: Seq<Seq<usize>>,
    s: usize,
) -> bool {
    &&& q.len() == l.len()
    &&& forall|k: int|
        0 <= k < q.len() ==> {
            &&& same_trip(#[trigger] q[k], l[k])
            &&& q[k].direction() == d[s as int][l[k].destination() as int]
            &&& q[k].stop() == i[s as int][l[k].destination() as int]
        }
}

/// A train `c` standing at station `st` is served, giving `c2` and `st2`:
/// the passengers whose next stop is the station leave it and enter the
/// station again with fresh direction and next stop, in order; then the
/// passengers waiting for the terminus the train heads to all get on board,
/// in order. The train stays where it is.
pub open spec fn served<'a, T>(st: Station<'a, T>, st2: Station<'a, T>, c: Car<T>, c2: Car<T>) -> bool {
    let s = st.id();
    &&& st2.id() == s
    &&& st2.directions() == st.directions()
    &&& st2.interchanges() == st.interchanges()
    &&& c2.loc() == c.loc()
    &&& c2.dir() == c.dir()
    &&& c2.dest() == c.dest()
    &&& c2.countdown() == c.countdown()
    &&& exists|q: Seq<Passenger<T>>|
        {
            &&& refreshed(q, c.load()[s as int], st.directions(), st.interchanges(), s)
            &&& st2.waiting() == push_all(PassengerNextDirectionIndex {}, st.waiting(), q).update(
                c.dest() as int,
                Seq::<Passenger<T>>::empty(),
            )
            &&& c2.load() == push_all(
                PassengerNextStopIndex {},
                c.load().update(s as int, Seq::<Passenger<T>>::empty()),
                push_all(PassengerNextDirectionIndex {}, st.waiting(), q)[c.dest() as int],
            )
        }
}

/// A station of a network, with the routing tables it shares with the
/// others.
pub struct Station<'a, T> {
    index: usize,
    direction: &'a MetroDirection,
    interchange: &'a MetroInterchange,
    passengers: IndexList<Passenger<T>, PassengerNextDirectionIndex>,
}

impl<'a, T> Station<'a, T> {
    pub closed spec fn id(&self) -> usize {
        self.index
    }

    pub closed spec fn directions(&self) -> Seq<Seq<usize>> {
        self.direction@
    }

    pub closed spec fn interchanges(&self) -> Seq<Seq<usize>> {
        self.interchange@
    }

    /// The waiting passengers, bucketed by direction.
    pub closed spec fn waiting(&self) -> Seq<Seq<Passenger<T>>> {
        self.passengers.buckets()
    }

    /// The station belongs to a network of `n` stations with valid tables.
    pub open spec fn wf(&self, n: nat) -> bool {
        &&& valid_next(self.directions())
        &&& valid_next(self.interchanges())
        &&& self.directions().len() == n
        &&& self.interchanges().len() == n
        &&& self.id() < n
        &&& waiting_ok(self.waiting(), n)
    }
}

impl<'a, T: PassengerAction> Station<'a, T> {
    /// The passengers waiting for a train toward terminus `dir`.
    pub fn get_waiting(&self, dir: usize) -> (r: &Vec<Passenger<T>>)
        requires
            dir < self.waiting().len(),
        ensures
            r@ == self.waiting()[dir as int],
    {
        self.passengers.get_list(dir)
    }

    /// The number of waiting passengers.
    pub fn waiting_count(&self) -> (r: usize)
        requires
            total(self.waiting()) <= usize::MAX,
        ensures
            r == total(self.waiting()),
    {
        self.passengers.len()
    }

    /// A passenger bound for `dest` is told the direction and the next stop.
    fn set_directions(&self, p: Passenger<T>) -> (r: Passenger<T>)
        requires
            self.wf(self.directions().len()),
            p.destination() < self.directions().len(),
        ensures
            same_trip(r, p),
            r.direction() == self.directions()[self.id() as int][p.destination() as int],
            r.stop() == self.interchanges()[self.id() as int][p.destination() as int],
    {
        let dst = p.get_destination();
        let dir = self.direction.get_direction(self.index, dst);
        let stop = self.interchange.next_station(self.index, dst);
        p.set_next_direction(dir).set_next_stop(stop)
    }

    /// A passenger enters: it gets its direction and next stop from the
    /// tables and waits at the end of the bucket of its direction.
    pub fn enter_passenger(&mut self, p: Passenger<T>)
        requires
            old(self).wf(old(self).directions().len()),
            p.destination() < old(self).directions().len(),
        ensures
            final(self).wf(old(self).directions().len()),
            final(self).id() == old(self).id(),
            final(self).directions() == old(self).directions(),
            final(self).interchanges() == old(self).interchanges(),
            ({
                let b = old(self).directions()[old(self).id() as int][p.destination() as int] as int;
                let q = final(self).waiting()[b].last();
                &&& final(self).waiting() == push_one(old(self).waiting(), b, q)
                &&& same_trip(q, p)
                &&& q.direction() == b
                &&& q.stop() == old(self).interchanges()[old(self).id() as int][p.destination() as int]
            }),
            total(final(self).waiting()) == total(old(self).waiting()) + 1,
    {
        let ghost n = self.directions().len();
        let p = self.set_directions(p).enter_station();
        let ghost b = p.direction() as int;
        self.passengers.push(p);
        proof {
            crate::index_list::lemma_total_update(old(self).waiting(), b, old(self).waiting()[b].push(p));
            let w = self.waiting();
            assert(w[b].last() == p);
            assert forall|i: int, k: int| 0 <= i < w.len() && 0 <= k < w[i].len() implies {
                &&& PassengerNextDirectionIndex {}.spec_index(#[trigger] w[i][k]) == i
                &&& w[i][k].stop() < n && w[i][k].destination() < n
            } by {
                if i == b && k == old(self).waiting()[b].len() {
                    assert(w[i][k] == p);
                } else {
                    assert(w[i][k] == old(self).waiting()[i][k]);
                }
            }
        }
    }

    /// The passengers waiting for the terminus the train heads to get on
    /// board, all of them, in order.
    pub fn board_passengers(&mut self, car: &mut Car<T>)
        requires
            old(self).wf(old(self).directions().len()),
            load_ok(old(car).load(), old(self).directions().len()),
            old(car).dest() < old(self).directions().len(),
        ensures
            final(self).wf(old(self).directions().len()),
            final(self).id() == old(self).id(),
            final(self).directions() == old(self).directions(),
            final(self).interchanges() == old(self).interchanges(),
            final(self).waiting() == old(self).waiting().update(old(car).dest() as int, Seq::<Passenger<T>>::empty()),
            final(car).load() == push_all(
                PassengerNextStopIndex {},
                old(car).load(),
                old(self).waiting()[old(car).dest() as int],
            ),
            load_ok(final(car).load(), old(self).directions().len()),
            final(car).dest() == old(car).dest(),
            final(car).loc() == old(car).loc(),
            final(car).dir() == old(car).dir(),
            final(car).countdown() == old(car).countdown(),
            total(final(self).waiting()) + total(final(car).load()) == total(old(self).waiting()) + total(
                old(car).load(),
            ),
    {
        let ghost n = self.directions().len();
        let dst = car.get_destination();
        let mut passengers = self.passengers.take_list(dst);
        let ghost moved = passengers@;
        proof {
            let w = old(self).waiting();
            assert forall|k: int| 0 <= k < moved.len() implies {
                &&& 0 <= PassengerNextStopIndex {}.spec_index(#[trigger] moved[k]) < n
                &&& moved[k].stop() < n && moved[k].destination() < n
            } by {
                assert(moved[k] == w[dst as int][k]);
            }
            crate::index_list::lemma_push_all_keeps(
                PassengerNextStopIndex {},
                old(car).load(),
                moved,
                |p: Passenger<T>| p.stop() < n && p.destination() < n,
            );
            crate::index_list::lemma_push_all(PassengerNextStopIndex {}, old(car).load(), moved);
            crate::index_list::lemma_total_update(w, dst as int, Seq::<Passenger<T>>::empty());
        }
        car.board_passengers(&mut passengers);
        proof {
            let w = self.waiting();
            assert forall|i: int, k: int| 0 <= i < w.len() && 0 <= k < w[i].len() implies {
                &&& PassengerNextDirectionIndex {}.spec_index(#[trigger] w[i][k]) == i
                &&& w[i][k].stop() < n && w[i][k].destination() < n
            } by {
                assert(w[i][k] == old(self).waiting()[i][k]);
            }
        }
    }

    /// The passengers whose next stop is this station leave the train and
    /// enter the station again, in order.
    pub fn land_passenger(&mut self, c: &mut Car<T>)
        requires
            old(self).wf(old(self).directions().len()),
            load_ok(old(c).load(), old(self).directions().len()),
            old(c).loc() is Station,
            old(c).loc()->station == old(self).id(),
        ensures
            final(self).wf(old(self).directions().len()),
            final(self).id() == old(self).id(),
            final(self).directions() == old(self).directions(),
            final(self).interchanges() == old(self).interchanges(),
            final(c).load() == old(c).load().update(old(self).id() as int, Seq::<Passenger<T>>::empty()),
            load_ok(final(c).load(), old(self).directions().len()),
            final(c).dest() == old(c).dest(),
            final(c).loc() == old(c).loc(),
            final(c).dir() == old(c).dir(),
            final(c).countdown() == old(c).countdown(),
            total(final(self).waiting()) + total(final(c).load()) == total(old(self).waiting()) + total(
                old(c).load(),
            ),
            (exists|q: Seq<Passenger<T>>|
                {
                    &&& refreshed(
                        q,
                        old(c).load()[old(self).id() as int],
                        old(self).directions(),
                        old(self).interchanges(),
                        old(self).id(),
                    )
                    &&& final(self).waiting() == push_all(PassengerNextDirectionIndex {}, old(self).waiting(), q)
                }),
    {
        let ghost n = self.directions().len();
        let ghost id = self.id() as int;
        let ghost mut q: Seq<Passenger<T>> = Seq::empty();
        let mut landed = c.unboard_passengers();
        let ghost all = landed@;
        proof {
            crate::index_list::lemma_total_update(old(c).load(), id, Seq::<Passenger<T>>::empty());
            let l = c.load();
            assert forall|i: int, k: int| 0 <= i < l.len() && 0 <= k < l[i].len() implies {
                &&& PassengerNextStopIndex {}.spec_index(#[trigger] l[i][k]) == i
                &&& l[i][k].stop() < n && l[i][k].destination() < n
            } by {
                assert(l[i][k] == old(c).load()[i][k]);
            }
        }
        let mut rev: Vec<Passenger<T>> = Vec::new();
        while landed.len() > 0
            invariant
                landed@.len() + rev@.len() == all.len(),
                landed@ == all.subrange(0, landed@.len() as int),
                forall|j: int| 0 <= j < rev@.len() ==> #[trigger] rev@[j] == all[all.len() - 1 - j],
            decreases landed.len(),
        {
            let p = landed.pop().unwrap();
            rev.push(p);
            assert(landed@ =~= all.subrange(0, landed@.len() as int));
        }
        while rev.len() > 0
            invariant
                self.wf(n),
                n == self.directions().len(),
                self.id() == id,
                self.directions() == old(self).directions(),
                self.interchanges() == old(self).interchanges(),
                all == old(c).load()[id],
                load_ok(old(c).load(), n),
                0 <= id < n,
                rev@.len() <= all.len(),
                forall|j: int| 0 <= j < rev@.len() ==> #[trigger] rev@[j] == all[all.len() - 1 - j],
                total(self.waiting()) == total(old(self).waiting()) + (all.len() - rev@.len()),
                q.len() == all.len() - rev@.len(),
                refreshed(q, all.subrange(0, q.len() as int), old(self).directions(), old(self).interchanges(), id as usize),
                self.waiting() == push_all(PassengerNextDirectionIndex {}, old(self).waiting(), q),
            decreases rev.len(),
        {
            let ghost k = all.len() - rev@.len();
            assert(rev@[rev@.len() - 1] == all[k]);
            let p = rev.pop().unwrap();
            assert(p.stop() == id && p.destination() < n) by {
                assert(all[k] == old(c).load()[id][k]);
            }
            let p = p.leave_train();
            if p.is_destination(self.index) {
                let ghost before = self.waiting();
                self.enter_passenger(p);
                proof {
                    let b = self.directions()[id][p.destination() as int] as int;
                    let x = self.waiting()[b].last();
                    let q2 = q.push(x);
                    assert(q2.drop_last() =~= q);
                    assert(q2.last() == x);
                    assert(self.waiting() == push_all(PassengerNextDirectionIndex {}, old(self).waiting(), q2));
                    assert forall|m: int| 0 <= m < q2.len() implies {
                        &&& same_trip(#[trigger] q2[m], all.subrange(0, q2.len() as int)[m])
                        &&& q2[m].direction() == old(self).directions()[id][all.subrange(0, q2.len() as int)[m].destination() as int]
                        &&& q2[m].stop() == old(self).interchanges()[id][all.subrange(0, q2.len() as int)[m].destination() as int]
                    } by {
                        if m < q.len() {
                            assert(q2[m] == q[m]);
                            assert(all.subrange(0, q2.len() as int)[m] == all.subrange(0, q.len() as int)[m]);
                        } else {
                            assert(all.subrange(0, q2.len() as int)[m] == all[k]);
                        }
                    }
                    q = q2;
                }
            }
        }
        assert(all.subrange(0, q.len() as int) =~= all);
    }
}

/// The stations `0..count` of a network, sharing the two routing tables.
pub fn station_list_factory<'a, T: PassengerAction>(
    count: usize,
    direction: &'a MetroDirection,
    interchange: &'a MetroInterchange,
) -> (r: Vec<Station<'a, T>>)
    requires
        valid_next(direction@),
        valid_next(interchange@),
        direction@.len() == count,
        interchange@.len() == count,
    ensures
        r@.len() == count,
        forall|i: int|
            0 <= i < count ==> {
                &&& (#[trigger] r@[i]).id() == i
                &&& r@[i].wf(count as nat)
                &&& r@[i].directions() == direction@
                &&& r@[i].interchanges() == interchange@
                &&& total(r@[i].waiting()) == 0
            },
{
    let mut out: Vec<Station<'a, T>> = Vec::new();
    let mut id: usize = 0;
    while id < count
        invariant
            valid_next(direction@),
            valid_next(interchange@),
            direction@.len() == count,
            interchange@.len() == count,
            id <= count,
            out@.len() == id,
            forall|i: int|
                0 <= i < id ==> {
                    &&& (#[trigger] out@[i]).id() == i
                    &&& out@[i].wf(count as nat)
                    &&& out@[i].directions() == direction@
                    &&& out@[i].interchanges() == interchange@
                    &&& total(out@[i].waiting()) == 0
                },
        decreases count - id,
    {
        out.push(station_factory(id, count, direction, interchange));
        id = id + 1;
    }
    out
}

/// Station `id` of a network of `total` stations, with no one waiting.
fn station_factory<'a, T: PassengerAction>(
    id: usize,
    total_count: usize,
    direction: &'a MetroDirection,
    interchange: &'a MetroInterchange,
) -> (r: Station<'a, T>)
    requires
        valid_next(direction@),
        valid_next(interchange@),
        direction@.len() == total_count,
        interchange@.len() == total_count,
        id < total_count,
    ensures
        r.id() == id,
        r.wf(total_count as nat),
        r.directions() == direction@,
        r.interchanges() == interchange@,
        total(r.waiting()) == 0,
{
    let passengers = IndexList::new(total_count, PassengerNextDirectionIndex {});
    let r = Station { index: id, direction, interchange, passengers };
    proof {
        lemma_total_empty::<Passenger<T>>(total_count as nat);
    }
    r
}

/// Empty buckets hold nothing.
pub proof fn lemma_total_empty<T>(n: nat)
    ensures
        total(Seq::new(n, |i: int| Seq::<T>::empty())) == 0,
    decreases n,
{
    if n > 0 {
        lemma_total_empty::<T>((n - 1) as nat);
        assert(Seq::new(n, |i: int| Seq::<T>::empty()).drop_last() =~= Seq::new(
            (n - 1) as nat,
            |i: int| Seq::<T>::empty(),
        ));
    }
}

} // verus!
