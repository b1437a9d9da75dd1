use vstd::prelude::*;
use crate::tech::PointInfo;

pub mod distance;

verus! {

/// A point of the graph: where it lies and how much food it holds.
///
/// The pheromone on a point is kept by the graph, beside the point.
#[derive(Clone, Copy, Debug, PartialEq, Eq, Structural)]
pub struct Point {
    pub id: char,
    pub x: i16,
    pub y: i16,
    pub food: u32,
    /// The food that the point was declared with, to which a reset returns.
    pub initial_food: u32,
}

impl Point {
    pub fn new(id: char, x: i16, y: i16, food: u32) -> (point: Self)
        ensures
            point == (Point { id, x, y, food, initial_food: food }),
    {
        Point { id, x, y, food, initial_food: food }
    }

    /// The point that a grid entry declares.
    pub open spec fn of(info: PointInfo) -> Point {
        Point {
            id: info.id(),
            x: info.position().0,
            y: info.position().1,
            food: info.food(),
            initial_food: info.food(),
        }
    }

    /// The point as it was declared: its food is back at the first amount.
    pub open spec fn restored(self) -> Point {
        Point { food: self.initial_food, ..self }
    }

    /// The point goes back to the food that it was declared with.
    pub fn reset(&mut self)
        ensures
            *final(self) == old(self).restored(),
    {
        self.food = self.initial_food;
    }
}

impl vstd::std_specs::convert::FromSpecImpl<PointInfo> for Point {
    open spec fn obeys_from_spec() -> bool {
        true
    }

    open spec fn from_spec(info: PointInfo) -> Point {
        Point::of(info)
    }
}

impl From<PointInfo> for Point {
    fn from(info: PointInfo) -> (point: Point) {
        let (x, y) = info.get_position();
        Point::new(info.get_id(), x, y, info.get_food())
    }
}

/// A candidate in a ranking: a point's id and the key that its score is ranked by.
#[derive(Clone, Copy, Debug, PartialEq, Eq, Structural)]
pub struct Auxil {
    pub id: char,
    pub ratio: i64,
}

impl Auxil {
    pub fn new(id: char, ratio: i64) -> (auxil: Self)
        ensures
            auxil == (Auxil { id, ratio }),
    {
        Auxil { id, ratio }
    }
}

} // verus!
