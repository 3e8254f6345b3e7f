//! Building a line from compact figures: the station indices, one dwell
//! time for all stations, and the travel time of each stretch, which is
//! split so that trains can pass each other on long stretches.
use crate::line::{Line, LineDirection};
use crate::line_factory::{
    LineChunkConfig, LineChunkKind, LineFactoryConfig, LineInfoConfig, StationInfoConfig, chunk_lists,
    description_ok, line_factory, railway_of,
};
use crate::passenger::PassengerAction;
use vstd::prelude::*;

verus! {

/// Stretches at least as long as the split length are cut in this many
/// pieces: single track, double track, single track.
pub const CHUNK_COUNT: usize = 3;

/// The compact description of a line.
pub struct FastLineFactoryConfig {
    pub station_ids: Vec<usize>,
    pub station_time: usize,
    pub line_len: Vec<usize>,
    pub split_len: usize,
    pub depo_size: usize,
    pub train_delay: usize,
}

impl FastLineFactoryConfig {
    pub fn new(
        station_ids: Vec<usize>,
        station_time: usize,
        line_len: Vec<usize>,
        split_len: usize,
        depo_size: usize,
        train_delay: usize,
    ) -> (r: Self)
        ensures
            r.station_ids@ == station_ids@,
            r.station_time == station_time,
            r.line_len@ == line_len@,
            r.split_len == split_len,
            r.depo_size == depo_size,
            r.train_delay == train_delay,
    {
        Self { station_ids, station_time, line_len, split_len, depo_size, train_delay }
    }
}

/// The pieces of a stretch of `length` steps: one single-track piece when
/// shorter than `split`; else single, double and single track, the double
/// piece taking the remainder of the division by three.
pub open spec fn chunks_for(split: usize, length: usize) -> Seq<LineChunkConfig> {
    if length < split {
        seq![LineChunkConfig { duration: length, kind: LineChunkKind::Single }]
    } else {
        let base = (length / 3) as usize;
        let rem = (length % 3) as usize;
        seq![
            LineChunkConfig { duration: base, kind: LineChunkKind::Single },
            LineChunkConfig { duration: (base + rem) as usize, kind: LineChunkKind::Double },
            LineChunkConfig { duration: base, kind: LineChunkKind::Single },
        ]
    }
}

/// The stations of the given indices, all with dwell time `time`.
pub open spec fn stations_for(ids: Seq<usize>, time: usize) -> Seq<StationInfoConfig> {
    ids.map_values(|id: usize| StationInfoConfig { index: id, duration: time, terminus: false })
}

/// The pieces of each stretch.
pub open spec fn stretches_for(split: usize, lens: Seq<usize>) -> Seq<Seq<LineChunkConfig>> {
    lens.map_values(|len: usize| chunks_for(split, len))
}

/// Builds the line described by `conf` in a network of
/// `total_station_count` stations.
pub fn fast_line_factory<T: PassengerAction>(conf: FastLineFactoryConfig, total_station_count: usize) -> (r: Line<T>)
    requires
        conf.station_ids@.len() >= 2,
        conf.line_len@.len() + 1 == conf.station_ids@.len(),
        forall|i: int| 0 <= i < conf.station_ids@.len() ==> #[trigger] conf.station_ids@[i] < total_station_count,
        2 * conf.depo_size <= usize::MAX,
    ensures
        r.wf(),
        r.rail() == railway_of(
            stations_for(conf.station_ids@, conf.station_time),
            stretches_for(conf.split_len, conf.line_len@),
        ),
        r.quota().target() == 2 * conf.depo_size,
        r.quota().count_so_far() == 0,
        r.term_a().id() == conf.station_ids@[0],
        r.term_b().id() == conf.station_ids@.last(),
        r.cars().len() == 0,
        r.size() == total_station_count,
        conf.depo_size >= 1 && conf.train_delay == 0 ==> {
            &&& r.may_start(LineDirection::DirectionA)
            &&& r.may_start(LineDirection::DirectionB)
            &&& r.quota().count_so_far() + 2 <= r.quota().target()
        },
{
    let lfc = build_line_factory_config(conf, total_station_count);
    line_factory(lfc)
}

fn build_line_factory_config(conf: FastLineFactoryConfig, tsc: usize) -> (r: LineFactoryConfig)
    requires
        conf.station_ids@.len() >= 2,
        conf.line_len@.len() + 1 == conf.station_ids@.len(),
        forall|i: int| 0 <= i < conf.station_ids@.len() ==> #[trigger] conf.station_ids@[i] < tsc,
    ensures
        r.station_duration@ == stations_for(conf.station_ids@, conf.station_time),
        chunk_lists(r.line_duration@) == stretches_for(conf.split_len, conf.line_len@),
        description_ok(r.station_duration@, chunk_lists(r.line_duration@), tsc as nat),
        r.depo_size == conf.depo_size,
        r.train_delay == conf.train_delay,
        r.total_station_count == tsc,
{
    let station_info = station_info_config_factory(conf.station_time, &conf.station_ids);
    let line_info = line_info_config_factory(conf.split_len, &conf.line_len);
    let r = LineFactoryConfig::from_iter(station_info, line_info)
        .set_depo_size(conf.depo_size)
        .set_train_delay(conf.train_delay)
        .set_total_station_count(tsc);
    assert forall|i: int| 0 <= i < r.station_duration@.len() implies (#[trigger] r.station_duration@[i]).index < tsc by {
        assert(r.station_duration@[i].index == conf.station_ids@[i]);
    }
    r
}

/// The stations of the given indices, all with dwell time `time`.
pub fn station_info_config_factory(time: usize, ids: &Vec<usize>) -> (r: Vec<StationInfoConfig>)
    ensures
        r@ == stations_for(ids@, time),
{
    let mut out: Vec<StationInfoConfig> = Vec::new();
    let mut k: usize = 0;
    while k < ids.len()
        invariant
            k <= ids@.len(),
            out@ == stations_for(ids@.subrange(0, k as int), time),
        decreases ids.len() - k,
    {
        out.push(StationInfoConfig::new(ids[k], time));
        k = k + 1;
        assert(out@ =~= stations_for(ids@.subrange(0, k as int), time));
    }
    assert(ids@.subrange(0, k as int) =~= ids@);
    out
}

/// The pieces of each stretch.
pub fn line_info_config_factory(split_line: usize, lens: &Vec<usize>) -> (r: Vec<LineInfoConfig>)
    ensures
        chunk_lists(r@) == stretches_for(split_line, lens@),
{
    let mut out: Vec<LineInfoConfig> = Vec::new();
    let mut k: usize = 0;
    while k < lens.len()
        invariant
            k <= lens@.len(),
            chunk_lists(out@) == stretches_for(split_line, lens@.subrange(0, k as int)),
            out@.len() == k,
        decreases lens.len() - k,
    {
        let chunks = BuildLineChunkConfig::new(split_line, lens[k]).collect();
        let info = LineInfoConfig::new(chunks);
        assert(info.chunks@ == chunks_for(split_line, lens@[k as int]));
        let ghost prev = out@;
        out.push(info);
        assert(out@ == prev.push(info));
        assert forall|q: int| 0 <= q < k + 1 implies #[trigger] chunk_lists(out@)[q] == stretches_for(split_line, lens@.subrange(0, k + 1))[q] by {
            if q < k {
                assert(out@[q] == prev[q]);
                assert(chunk_lists(prev)[q] == stretches_for(split_line, lens@.subrange(0, k as int))[q]);
            }
        }
        k = k + 1;
        assert(chunk_lists(out@) =~= stretches_for(split_line, lens@.subrange(0, k as int)));
    }
    assert(lens@.subrange(0, k as int) =~= lens@);
    out
}

/// Gives the pieces of one stretch, one by one.
pub struct BuildLineChunkConfig {
    count: usize,
    rem: usize,
    base: usize,
}

impl BuildLineChunkConfig {
    /// The pieces still to give, in order.
    pub closed spec fn pending(&self) -> Seq<LineChunkConfig> {
        if self.count == 3 {
            seq![
                LineChunkConfig { duration: self.base, kind: LineChunkKind::Single },
                LineChunkConfig { duration: (self.base + self.rem) as usize, kind: LineChunkKind::Double },
                LineChunkConfig { duration: self.base, kind: LineChunkKind::Single },
            ]
        } else if self.count == 2 {
            seq![
                LineChunkConfig { duration: (self.base + self.rem) as usize, kind: LineChunkKind::Double },
                LineChunkConfig { duration: self.base, kind: LineChunkKind::Single },
            ]
        } else if self.count == 1 {
            seq![LineChunkConfig { duration: self.base, kind: LineChunkKind::Single }]
        } else {
            seq![]
        }
    }

    pub closed spec fn wf(&self) -> bool {
        &&& self.count <= 3
        &&& self.base + self.rem <= usize::MAX
    }

    pub fn new(split_line: usize, length: usize) -> (r: Self)
        ensures
            r.wf(),
            r.pending() == chunks_for(split_line, length),
    {
        if length < split_line {
            BuildLineChunkConfig { count: 1, rem: 0, base: length }
        } else {
            let base = length / CHUNK_COUNT;
            let rem = length % CHUNK_COUNT;
            BuildLineChunkConfig { count: CHUNK_COUNT, rem, base }
        }
    }

    /// The next piece, or nothing when all are given.
    pub fn next(&mut self) -> (r: Option<LineChunkConfig>)
        requires
            old(self).wf(),
        ensures
            final(self).wf(),
            old(self).pending().len() == 0 ==> r is None && final(self).pending().len() == 0,
            old(self).pending().len() > 0 ==> {
                &&& r == Some(old(self).pending()[0])
                &&& final(self).pending() == old(self).pending().drop_first()
            },
    {
        if self.count == 0 {
            None
        } else {
            self.count = self.count - 1;
            let (len, kind) = if self.count % 2 == 1 {
                (self.base + self.rem, LineChunkKind::Double)
            } else {
                (self.base, LineChunkKind::Single)
            };
            proof {
                assert(self.pending() =~= old(self).pending().drop_first());
            }
            Some(LineChunkConfig::new(len, kind))
        }
    }

    /// All the pieces, in order.
    pub fn collect(self) -> (r: Vec<LineChunkConfig>)
        requires
            self.wf(),
        ensures
            r@ == self.pending(),
    {
        let ghost all = self.pending();
        let mut it = self;
        let mut out: Vec<LineChunkConfig> = Vec::new();
        loop
            invariant
                it.wf(),
                all == self.pending(),
                out@ + it.pending() == all,
            decreases it.pending().len(),
        {
            let ghost before = it.pending();
            match it.next() {
                Some(c) => {
                    out.push(c);
                    assert(out@ + it.pending() =~= all);
                },
                None => {
                    assert(out@ =~= all);
                    return out;
                },
            }
        }
    }
}

} // verus!
