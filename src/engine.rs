//! The simulation loop: at every step, passengers arrive, trains move and
//! depart, and passengers alight and board, in that order.
use crate::index_list::total;
use crate::line::{Line, boarded, cars_total, lemma_cars_total_update, stations_total, stepped};
use crate::passenger::{
    PassengerAction, PassengerActionFactory, PassengerFactory, TrafficGenerator, admitted, drawn, flows_sum,
};
use crate::station::Station;
use vstd::prelude::*;

verus! {

/// The passengers on board over all trains of all lines.
pub open spec fn lines_total<T>(lines: Seq<Line<T>>) -> int
    decreases lines.len(),
{
    if lines.len() == 0 {
        0
    } else {
        lines_total(lines.drop_last()) + cars_total(lines.last().cars())
    }
}

/// Replacing one line changes the total by the difference.
pub proof fn lemma_lines_total_update<T>(lines: Seq<Line<T>>, i: int, x: Line<T>)
    requires
        0 <= i < lines.len(),
    ensures
        lines_total(lines.update(i, x)) == lines_total(lines) - cars_total(lines[i].cars()) + cars_total(x.cars()),
    decreases lines.len(),
{
    if i == lines.len() - 1 {
        assert(lines.update(i, x).drop_last() =~= lines.drop_last());
    } else {
        lemma_lines_total_update(lines.drop_last(), i, x);
        assert(lines.update(i, x).drop_last() =~= lines.drop_last().update(i, x));
    }
}

/// Stations and lines fit a network of `n` stations.
pub open spec fn network_ok<'a, T>(stations: Seq<Station<'a, T>>, lines: Seq<Line<T>>, n: nat) -> bool {
    &&& stations.len() == n
    &&& forall|s: int| 0 <= s < n ==> (#[trigger] stations[s]).wf(n) && stations[s].id() == s
    &&& forall|l: int| 0 <= l < lines.len() ==> (#[trigger] lines[l]).wf() && lines[l].size() == n
}

/// One step of the simulation, with the flows drawn for it: the flows are
/// let into the stations; every line takes a step; then every line, in
/// order, lands and boards passengers, the stations passing through the
/// states of a chain.
pub open spec fn sim_step<'a, T>(
    flows: Seq<Vec<u32>>,
    stats: Seq<Station<'a, T>>,
    lines: Seq<Line<T>>,
    stats2: Seq<Station<'a, T>>,
    lines2: Seq<Line<T>>,
) -> bool {
    exists|s1: Seq<Station<'a, T>>, moved: Seq<Line<T>>, chain: Seq<Seq<Station<'a, T>>>|
        {
            &&& admitted(stats, s1, flows)
            &&& moved.len() == lines.len()
            &&& forall|l: int| 0 <= l < lines.len() ==> stepped(#[trigger] lines[l], moved[l])
            &&& chain.len() == lines.len() + 1
            &&& chain[0] == s1
            &&& chain.last() == stats2
            &&& lines2.len() == lines.len()
            &&& forall|l: int| 0 <= l < lines.len() ==> boarded(#[trigger] moved[l], lines2[l], chain[l], chain[l + 1])
        }
}

/// One step of the simulation with some flows drawn from the generators
/// `gens`.
pub open spec fn sim_advance<'a, T, G>(
    gens: Seq<Seq<Option<G>>>,
    stats: Seq<Station<'a, T>>,
    lines: Seq<Line<T>>,
    stats2: Seq<Station<'a, T>>,
    lines2: Seq<Line<T>>,
) -> bool {
    exists|flows: Seq<Vec<u32>>| drawn(flows, gens) && sim_step(flows, stats, lines, stats2, lines2)
}

/// One step of the simulation: passengers arrive, every line moves its
/// trains, then every line lands and boards passengers. Returns how many
/// passengers arrived; nobody else enters or leaves.
pub fn engine_step<'a, Tg: TrafficGenerator, Tc: PassengerAction, Tf: PassengerActionFactory<Tc>>(
    step: u32,
    passenger_factory: &PassengerFactory<Tg>,
    stations: &mut Vec<Station<'a, Tc>>,
    lines: &mut Vec<Line<Tc>>,
    tf: &mut Tf,
) -> (r: u128)
    requires
        network_ok(old(stations)@, old(lines)@, old(stations)@.len() as nat),
        old(stations)@.len() * old(stations)@.len() <= isize::MAX,
        passenger_factory.generators().len() == old(stations)@.len(),
        forall|i: int|
            0 <= i < passenger_factory.generators().len() ==> (#[trigger] passenger_factory.generators()[i]).len()
                == old(stations)@.len(),
    ensures
        network_ok(final(stations)@, final(lines)@, old(stations)@.len() as nat),
        final(lines)@.len() == old(lines)@.len(),
        stations_total(final(stations)@) + lines_total(final(lines)@) == stations_total(old(stations)@)
            + lines_total(old(lines)@) + r,
        (exists|flows: Seq<Vec<u32>>|
            {
                &&& drawn(flows, passenger_factory.generators())
                &&& r == flows_sum(flows)
                &&& sim_step(flows, old(stations)@, old(lines)@, final(stations)@, final(lines)@)
            }),
{
    let ghost n = stations@.len() as nat;
    let generated = passenger_factory.generate_traffic(step, stations, tf);
    let ghost s1 = stations@;
    move_trains(lines);
    let ghost moved = lines@;
    passenger_boarding(lines, stations);
    proof {
        let flows = choose|flows: Seq<Vec<u32>>| {
            &&& drawn(flows, passenger_factory.generators())
            &&& admitted(old(stations)@, s1, flows)
            &&& generated == flows_sum(flows)
        };
        let chain = choose|chain: Seq<Seq<Station<'a, Tc>>>| {
            &&& chain.len() == moved.len() + 1
            &&& chain[0] == s1
            &&& chain.last() == stations@
            &&& forall|l: int| 0 <= l < moved.len() ==> boarded(#[trigger] moved[l], lines@[l], chain[l], chain[l + 1])
        };
        assert(sim_step(flows, old(stations)@, old(lines)@, stations@, lines@));
    }
    generated
}

/// Every line takes a step.
fn move_trains<T: PassengerAction>(lines: &mut Vec<Line<T>>)
    requires
        forall|l: int| 0 <= l < old(lines)@.len() ==> (#[trigger] old(lines)@[l]).wf(),
    ensures
        final(lines)@.len() == old(lines)@.len(),
        forall|l: int|
            0 <= l < final(lines)@.len() ==> (#[trigger] final(lines)@[l]).wf() && final(lines)@[l].size()
                == old(lines)@[l].size(),
        lines_total(final(lines)@) == lines_total(old(lines)@),
        forall|l: int| 0 <= l < old(lines)@.len() ==> stepped(#[trigger] old(lines)@[l], final(lines)@[l]),
{
    let mut i: usize = 0;
    while i < lines.len()
        invariant
            i <= lines@.len(),
            lines@.len() == old(lines)@.len(),
            forall|l: int|
                0 <= l < lines@.len() ==> (#[trigger] lines@[l]).wf() && lines@[l].size() == old(lines)@[l].size(),
            lines_total(lines@) == lines_total(old(lines)@),
            forall|l: int| 0 <= l < i ==> stepped(#[trigger] old(lines)@[l], lines@[l]),
            forall|l: int| i <= l < lines@.len() ==> #[trigger] lines@[l] == old(lines)@[l],
        decreases lines.len() - i,
    {
        let ghost before = lines@;
        lines[i].step();
        proof {
            lemma_lines_total_update(before, i as int, lines@[i as int]);
            assert forall|l: int| 0 <= l < i + 1 implies stepped(#[trigger] old(lines)@[l], lines@[l]) by {
                if l < i {
                    assert(lines@[l] == before[l]);
                }
            }
            assert forall|l: int| i + 1 <= l < lines@.len() implies #[trigger] lines@[l] == old(lines)@[l] by {
                assert(lines@[l] == before[l]);
            }
        }
        i = i + 1;
    }
}

/// Every line lands and boards the passengers of its trains at stations.
fn passenger_boarding<'a, T: PassengerAction>(lines: &mut Vec<Line<T>>, stations: &mut Vec<Station<'a, T>>)
    requires
        network_ok(old(stations)@, old(lines)@, old(stations)@.len() as nat),
    ensures
        network_ok(final(stations)@, final(lines)@, old(stations)@.len() as nat),
        final(lines)@.len() == old(lines)@.len(),
        stations_total(final(stations)@) + lines_total(final(lines)@) == stations_total(old(stations)@)
            + lines_total(old(lines)@),
        (exists|chain: Seq<Seq<Station<'a, T>>>|
            {
                &&& chain.len() == old(lines)@.len() + 1
                &&& chain[0] == old(stations)@
                &&& chain.last() == final(stations)@
                &&& forall|l: int|
                    0 <= l < old(lines)@.len() ==> boarded(#[trigger] old(lines)@[l], final(lines)@[l], chain[l], chain[l + 1])
            }),
{
    let ghost n = stations@.len() as nat;
    let ghost mut chain: Seq<Seq<Station<'a, T>>> = seq![old(stations)@];
    let mut i: usize = 0;
    while i < lines.len()
        invariant
            n == old(stations)@.len(),
            i <= lines@.len(),
            lines@.len() == old(lines)@.len(),
            network_ok(stations@, lines@, n),
            stations_total(stations@) + lines_total(lines@) == stations_total(old(stations)@) + lines_total(
                old(lines)@,
            ),
            chain.len() == i + 1,
            chain[0] == old(stations)@,
            chain[i as int] == stations@,
            forall|l: int| 0 <= l < i ==> boarded(#[trigger] old(lines)@[l], lines@[l], chain[l], chain[l + 1]),
            forall|l: int| i <= l < lines@.len() ==> #[trigger] lines@[l] == old(lines)@[l],
        decreases lines.len() - i,
    {
        let ghost before = lines@;
        lines[i].boarding_operations(stations);
        proof {
            lemma_lines_total_update(before, i as int, lines@[i as int]);
            chain = chain.push(stations@);
            assert forall|l: int| 0 <= l < i + 1 implies boarded(#[trigger] old(lines)@[l], lines@[l], chain[l], chain[l + 1]) by {
                if l < i {
                    assert(lines@[l] == before[l]);
                }
            }
            assert forall|l: int| i + 1 <= l < lines@.len() implies #[trigger] lines@[l] == old(lines)@[l] by {
                assert(lines@[l] == before[l]);
            }
        }
        i = i + 1;
    }
    assert(chain.last() == stations@);
}

/// Runs the simulation for `steps` steps.
pub fn engine<'a, Tg: TrafficGenerator, Tc: PassengerAction, Tf: PassengerActionFactory<Tc>>(
    steps: u32,
    passenger_factory: &PassengerFactory<Tg>,
    stations: Vec<Station<'a, Tc>>,
    lines: Vec<Line<Tc>>,
    tf: Tf,
) -> (r: (Vec<Station<'a, Tc>>, Vec<Line<Tc>>))
    requires
        network_ok(stations@, lines@, stations@.len() as nat),
        stations@.len() * stations@.len() <= isize::MAX,
        passenger_factory.generators().len() == stations@.len(),
        forall|i: int|
            0 <= i < passenger_factory.generators().len() ==> (#[trigger] passenger_factory.generators()[i]).len()
                == stations@.len(),
    ensures
        network_ok(r.0@, r.1@, stations@.len() as nat),
        r.1@.len() == lines@.len(),
        (exists|ss: Seq<Seq<Station<'a, Tc>>>, ls: Seq<Seq<Line<Tc>>>|
            {
                &&& ss.len() == steps + 1
                &&& ls.len() == steps + 1
                &&& ss[0] == stations@
                &&& ls[0] == lines@
                &&& ss.last() == r.0@
                &&& ls.last() == r.1@
                &&& forall|k: int|
                    0 <= k < steps ==> sim_advance(passenger_factory.generators(), #[trigger] ss[k], ls[k], ss[k + 1], ls[k + 1])
            }),
{
    let lines_count = lines.len();
    let ghost s_in = stations@;
    let ghost l_in = lines@;
    let mut stations = stations;
    let mut lines = lines;
    let mut tf = tf;
    let ghost n = stations@.len() as nat;
    let ghost mut ss: Seq<Seq<Station<'a, Tc>>> = seq![stations@];
    let ghost mut ls: Seq<Seq<Line<Tc>>> = seq![lines@];
    let mut step: u32 = 0;
    while step < steps
        invariant
            step <= steps,
            ss.len() == step + 1,
            ls.len() == step + 1,
            ss[0] == s_in,
            ls[0] == l_in,
            ss[step as int] == stations@,
            ls[step as int] == lines@,
            forall|k: int|
                0 <= k < step ==> sim_advance(passenger_factory.generators(), #[trigger] ss[k], ls[k], ss[k + 1], ls[k + 1]),
            n == stations@.len(),
            n * n <= isize::MAX,
            network_ok(stations@, lines@, n),
            lines@.len() == lines_count,
            passenger_factory.generators().len() == n,
            forall|i: int|
                0 <= i < passenger_factory.generators().len() ==> (#[trigger] passenger_factory.generators()[i]).len()
                    == n,
        decreases steps - step,
    {
        let ghost s0 = stations@;
        let ghost l0 = lines@;
        engine_step(step, passenger_factory, &mut stations, &mut lines, &mut tf);
        proof {
            assert(sim_advance(passenger_factory.generators(), s0, l0, stations@, lines@));
            ss = ss.push(stations@);
            ls = ls.push(lines@);
            assert forall|k: int| 0 <= k < step + 1 implies sim_advance(passenger_factory.generators(), #[trigger] ss[k], ls[k], ss[k + 1], ls[k + 1]) by {
                if k < step {
                    assert(ss[k] == ss.drop_last()[k]);
                }
            }
        }
        step = step + 1;
    }
    assert(ss.last() == stations@);
    assert(ls.last() == lines@);
    (stations, lines)
}

} // verus!
