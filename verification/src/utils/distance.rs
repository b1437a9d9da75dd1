use vstd::prelude::*;
use crate::tech::Metric;

verus! {

/// A distance between two points of the grid, held exactly.
#[derive(Clone, Copy, Debug, PartialEq, Eq, Structural)]
pub enum Length {
    /// The distance is this whole number.
    Whole(u64),
    /// The distance is the square root of this whole number.
    Root(u64),
}

impl Length {
    /// The square of the distance.
    pub open spec fn squared(self) -> nat {
        match self {
            Length::Whole(n) => (n * n) as nat,
            Length::Root(n) => n as nat,
        }
    }

    /// The distance is zero.
    pub open spec fn zero(self) -> bool {
        self.squared() == 0
    }

    pub fn is_zero(&self) -> (b: bool)
        ensures
            b == self.zero(),
    {
        match self {
            Length::Whole(n) => {
                assert((*n == 0) == (*n * *n == 0)) by (nonlinear_arith);
                *n == 0
            },
            Length::Root(n) => *n == 0,
        }
    }
}

/// How far apart two coordinates are.
pub open spec fn gap(a: i16, b: i16) -> nat {
    if a >= b {
        (a - b) as nat
    } else {
        (b - a) as nat
    }
}

/// The larger of the two gaps.
pub open spec fn chebyshev_length(x0: i16, y0: i16, x1: i16, y1: i16) -> Length {
    if gap(x0, x1) >= gap(y0, y1) {
        Length::Whole(gap(x0, x1) as u64)
    } else {
        Length::Whole(gap(y0, y1) as u64)
    }
}

/// The root of the sum of the squared gaps.
pub open spec fn euclidean_length(x0: i16, y0: i16, x1: i16, y1: i16) -> Length {
    Length::Root((gap(x0, x1) * gap(x0, x1) + gap(y0, y1) * gap(y0, y1)) as u64)
}

/// The sum of the two gaps.
pub open spec fn taxicab_length(x0: i16, y0: i16, x1: i16, y1: i16) -> Length {
    Length::Whole((gap(x0, x1) + gap(y0, y1)) as u64)
}

/// The distance between two points in the given metric.
pub open spec fn length(metric: Metric, x0: i16, y0: i16, x1: i16, y1: i16) -> Length {
    match metric {
        Metric::Chebyshev => chebyshev_length(x0, y0, x1, y1),
        Metric::Euclidean => euclidean_length(x0, y0, x1, y1),
        Metric::Taxicab => taxicab_length(x0, y0, x1, y1),
    }
}

fn gap_between(a: i16, b: i16) -> (g: u64)
    ensures
        g == gap(a, b),
        g <= 0xffff,
{
    let d: i32 = a as i32 - b as i32;
    if d < 0 {
        (-d) as u64
    } else {
        d as u64
    }
}

pub fn chebyshev(x0: i16, y0: i16, x1: i16, y1: i16) -> (d: Length)
    ensures
        d == chebyshev_length(x0, y0, x1, y1),
{
    let dx = gap_between(x0, x1);
    let dy = gap_between(y0, y1);
    if dx >= dy {
        Length::Whole(dx)
    } else {
        Length::Whole(dy)
    }
}

pub fn euclidean(x0: i16, y0: i16, x1: i16, y1: i16) -> (d: Length)
    ensures
        d == euclidean_length(x0, y0, x1, y1),
{
    let dx = gap_between(x0, x1);
    let dy = gap_between(y0, y1);
    assert(dx * dx <= 0xffff * 0xffff && dy * dy <= 0xffff * 0xffff) by (nonlinear_arith)
        requires
            dx <= 0xffff,
            dy <= 0xffff,
    ;
    Length::Root(dx * dx + dy * dy)
}

pub fn taxicab(x0: i16, y0: i16, x1: i16, y1: i16) -> (d: Length)
    ensures
        d == taxicab_length(x0, y0, x1, y1),
{
    Length::Whole(gap_between(x0, x1) + gap_between(y0, y1))
}

impl Metric {
    /// The distance between two points in this metric.
    pub fn measure(self, x0: i16, y0: i16, x1: i16, y1: i16) -> (d: Length)
        ensures
            d == length(self, x0, y0, x1, y1),
    {
        match self {
            Metric::Chebyshev => chebyshev(x0, y0, x1, y1),
            Metric::Euclidean => euclidean(x0, y0, x1, y1),
            Metric::Taxicab => taxicab(x0, y0, x1, y1),
        }
    }
}

/// In every metric, the distance from one point to another is the distance back.
pub proof fn distance_is_symmetric(metric: Metric, x0: i16, y0: i16, x1: i16, y1: i16)
    ensures
        length(metric, x0, y0, x1, y1) == length(metric, x1, y1, x0, y0),
{
}

/// In every metric, a point is at distance zero from itself.
pub proof fn distance_to_self_is_zero(metric: Metric, x: i16, y: i16)
    ensures
        length(metric, x, y, x, y).zero(),
{
    assert(gap(x, x) == 0 && gap(y, y) == 0);
    assert(length(metric, x, y, x, y) == Length::Whole(0) || length(metric, x, y, x, y)
        == Length::Root(0));
}

} // verus!
