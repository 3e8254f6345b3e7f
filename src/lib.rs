//! A minute-resolution simulator of an urban metro network: routing tables,
//! line state machines, trains and passenger buckets, all verified.
use vstd::prelude::*;

pub mod all_shortest_path;
pub mod build_directions;
pub mod car;
pub mod counter;
pub mod engine;
pub mod cross_index_iterator;
pub mod fast_line_factory;
pub mod fleet;
pub mod graph;
pub mod index_list;
pub mod interchange_path;
pub mod line;
pub mod line_factory;
pub mod matrix;
pub mod metro_direction;
pub mod mixed_iterator;
pub mod metro_lines;
pub mod passenger;
pub mod path_iterator;
pub mod station;
pub mod unique_id;

verus! {

/// Minutes in one hour.
pub const MINUTE_IN_HOUR: u32 = 60;

/// Number of simulation steps between hour `begin` and hour `end`, with
/// `minute_resolution` steps per minute.
pub fn get_steps(begin: u32, end: u32, minute_resolution: u32) -> (r: u32)
    requires
        begin <= end,
        (end - begin) * 60 * minute_resolution <= u32::MAX,
    ensures
        r == (end - begin) * 60 * minute_resolution,
{
    if minute_resolution == 0 {
        return 0;
    }
    proof {
        let h = (end - begin) * 60;
        assert(h <= h * minute_resolution) by (nonlinear_arith)
            requires h >= 0, minute_resolution >= 1;
    }
    (end - begin) * MINUTE_IN_HOUR * minute_resolution
}

} // verus!
