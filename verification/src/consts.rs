use vstd::prelude::*;
use crate::tech::PointInfo;

pub mod bias;
pub mod default;

verus! {

/// The fewest points a grid may have: an anthill and one more.
pub const MIN_POINTS: usize = 2;

/// The most points a grid may have.
pub const MAX_POINTS: usize = 100;

/// Coordinates run from minus this value to this value.
pub const GRID_REACH: i16 = 99;

pub const MAX_ANTS: usize = 0xff_ffff;

pub const MAX_CYCLES: usize = 99;

pub const MAX_BATCH: usize = 999;

/// How often a selection may draw before it gives up.
pub const MAX_DRAWS: usize = 10_000;

/// The grid that a simulation runs on where none is given: the anthill `a`
/// and six more points, of which `g` holds food.
pub fn grid() -> (points: Vec<PointInfo>)
    ensures
        points@ == seq![
            PointInfo::Empty('a', 6, 1),
            PointInfo::Empty('b', 13, 1),
            PointInfo::Empty('c', 4, 3),
            PointInfo::Empty('d', 4, 5),
            PointInfo::Empty('e', 8, 5),
            PointInfo::Empty('f', 6, 8),
            PointInfo::Food('g', 10, 8, 15),
        ],
{
    let mut points: Vec<PointInfo> = Vec::new();
    points.push(PointInfo::Empty('a', 6, 1));
    points.push(PointInfo::Empty('b', 13, 1));
    points.push(PointInfo::Empty('c', 4, 3));
    points.push(PointInfo::Empty('d', 4, 5));
    points.push(PointInfo::Empty('e', 8, 5));
    points.push(PointInfo::Empty('f', 6, 8));
    points.push(PointInfo::Food('g', 10, 8, 15));
    assert(points@ =~= seq![
        PointInfo::Empty('a', 6, 1),
        PointInfo::Empty('b', 13, 1),
        PointInfo::Empty('c', 4, 3),
        PointInfo::Empty('d', 4, 5),
        PointInfo::Empty('e', 8, 5),
        PointInfo::Empty('f', 6, 8),
        PointInfo::Food('g', 10, 8, 15),
    ]);
    points
}

} // verus!
