//! The trains running on a line, in the order they left their deposit.
use crate::car::Car;
use crate::passenger::PassengerAction;
use vstd::prelude::*;

verus! {

pub struct Fleet<T> {
    running: Vec<Car<T>>,
}

impl<T> Fleet<T> {
    pub closed spec fn cars(&self) -> Seq<Car<T>> {
        self.running@
    }
}

impl<T: PassengerAction> Fleet<T> {
    pub fn new(fleet_size: usize) -> (r: Self)
        ensures
            r.cars().len() == 0,
    {
        Self { running: Vec::with_capacity(fleet_size) }
    }

    /// The running trains, in order of departure.
    pub fn running_cars_iter(&self) -> (r: &Vec<Car<T>>)
        ensures
            r@ == self.cars(),
    {
        &self.running
    }

    /// The positions in the fleet of the trains standing at a station, in
    /// order.
    pub fn in_station_car_iter(&self) -> (r: Vec<usize>)
        ensures
            forall|k: int| 0 <= k < r@.len() ==> (#[trigger] r@[k]) < self.cars().len(),
            forall|k: int, q: int| 0 <= k < q < r@.len() ==> r@[k] < r@[q],
            forall|i: int|
                0 <= i < self.cars().len() ==> (self.cars()[i].loc() is Station <==> r@.contains(i as usize)),
    {
        let mut out: Vec<usize> = Vec::new();
        let mut i: usize = 0;
        while i < self.running.len()
            invariant
                i <= self.running@.len(),
                forall|k: int| 0 <= k < out@.len() ==> (#[trigger] out@[k]) < i,
                forall|k: int, q: int| 0 <= k < q < out@.len() ==> out@[k] < out@[q],
                forall|a: int|
                    0 <= a < i ==> (self.running@[a].loc() is Station <==> out@.contains(a as usize)),
            decreases self.running.len() - i,
        {
            let ghost before = out@;
            if self.running[i].in_station() {
                out.push(i);
                assert(out@[out@.len() - 1] == i);
            }
            assert forall|a: int| 0 <= a < i + 1 implies (self.running@[a].loc() is Station <==> out@.contains(a as usize)) by {
                if a < i {
                    if before.contains(a as usize) {
                        let w = choose|w: int| 0 <= w < before.len() && before[w] == a as usize;
                        assert(out@[w] == a as usize);
                    }
                    if out@.contains(a as usize) {
                        let w = choose|w: int| 0 <= w < out@.len() && out@[w] == a as usize;
                        if w < before.len() {
                            assert(before[w] == a as usize);
                        }
                    }
                } else {
                    if out@.contains(a as usize) {
                        let w = choose|w: int| 0 <= w < out@.len() && out@[w] == a as usize;
                        if w < before.len() {
                            assert(before[w] < i);
                        }
                    }
                }
            }
            i = i + 1;
        }
        out
    }

    /// A train put into service joins the end of the fleet.
    pub fn start_train(&mut self, car: Car<T>)
        ensures
            final(self).cars() == old(self).cars().push(car),
    {
        self.running.push(car);
    }

    pub fn len(&self) -> (r: usize)
        ensures
            r == self.cars().len(),
    {
        self.running.len()
    }

    pub fn is_empty(&self) -> (r: bool)
        ensures
            r == (self.cars().len() == 0),
    {
        self.running.len() == 0
    }

    /// Train `i`, to change in place.
    pub fn car_mut(&mut self, i: usize) -> (r: &mut Car<T>)
        requires
            i < old(self).cars().len(),
        ensures
            *r == old(self).cars()[i as int],
            final(self).cars() == old(self).cars().update(i as int, *final(r)),
    {
        &mut self.running[i]
    }
}

} // verus!
