use vstd::prelude::*;
use crate::parse::{
    chars_of, read_signed, read_single, read_unsigned, signed, single, split, split_fields,
    texts, unsigned, ParseError,
};

verus! {

/// What a text of the form `cycle,id,amount` says: the cycle and the
/// amount are numbers without a minus sign, the id is one character.
pub open spec fn action_text(text: Seq<char>) -> Result<(usize, char, u32), ParseError> {
    let fields = split(text);
    if fields.len() != 3 {
        Err(ParseError::Shape)
    } else if unsigned(fields[0], usize::MAX as nat) is None {
        Err(ParseError::Number)
    } else if single(fields[1]) is None {
        Err(ParseError::Id)
    } else if unsigned(fields[2], u32::MAX as nat) is None {
        Err(ParseError::Number)
    } else {
        Ok(
            (
                unsigned(fields[0], usize::MAX as nat)->0 as usize,
                single(fields[1])->0,
                unsigned(fields[2], u32::MAX as nat)->0 as u32,
            ),
        )
    }
}

/// What a text of the form `id,x,y` or `id,x,y,food` says: the id is one
/// character, the coordinates are numbers that may have a minus sign, the
/// food is a number without one.
pub open spec fn point_text(text: Seq<char>) -> Result<PointInfo, ParseError> {
    let fields = split(text);
    if fields.len() != 3 && fields.len() != 4 {
        Err(ParseError::Shape)
    } else if single(fields[0]) is None {
        Err(ParseError::Id)
    } else if signed(fields[1], 0x8000, 0x7fff) is None {
        Err(ParseError::Number)
    } else if signed(fields[2], 0x8000, 0x7fff) is None {
        Err(ParseError::Number)
    } else if fields.len() == 3 {
        Ok(
            PointInfo::Empty(
                single(fields[0])->0,
                signed(fields[1], 0x8000, 0x7fff)->0 as i16,
                signed(fields[2], 0x8000, 0x7fff)->0 as i16,
            ),
        )
    } else if unsigned(fields[3], u32::MAX as nat) is None {
        Err(ParseError::Number)
    } else {
        Ok(
            PointInfo::Food(
                single(fields[0])->0,
                signed(fields[1], 0x8000, 0x7fff)->0 as i16,
                signed(fields[2], 0x8000, 0x7fff)->0 as i16,
                unsigned(fields[3], u32::MAX as nat)->0 as u32,
            ),
        )
    }
}

/// How an ant picks one of its best-ranked candidates.
#[derive(Clone, Copy, Debug, PartialEq, Eq, Structural)]
pub enum Selection {
    Greedy,
    Random,
    Roulette,
}

/// What makes a point attractive: P is pheromone, F is food, D is distance.
#[derive(Clone, Copy, Debug, PartialEq, Eq, Structural)]
pub enum Preference {
    Distance,
    Pheromone,
    Food,
    PD,
    FD,
    PF,
    PFD,
}

/// How the distance between two points is measured.
#[derive(Clone, Copy, Debug, PartialEq, Eq, Structural)]
pub enum Metric {
    Chebyshev,
    Euclidean,
    Taxicab,
}

/// How pheromone decays at the end of a cycle.
#[derive(Clone, Copy, Debug, PartialEq, Eq, Structural)]
pub enum Dispersion {
    Linear,
    Exponential,
    Relative,
}

/// Where a real-valued setting lies on the number line.
///
/// The library never computes with real numbers. Of the two real settings,
/// the deposit strength and the dispersion factor, it needs only this much
/// to tell a usable configuration from an unusable one.
#[derive(Clone, Copy, Debug, PartialEq, Eq, Structural)]
pub enum Magnitude {
    /// No number: the setting was left out.
    Unset,
    /// Below zero.
    Negative,
    /// Exactly zero.
    Zero,
    /// Above zero and below one.
    Fraction,
    /// Exactly one.
    One,
    /// Above one.
    Above,
}

impl Magnitude {
    /// The number is strictly positive.
    pub open spec fn positive(self) -> bool {
        self == Magnitude::Fraction || self == Magnitude::One || self == Magnitude::Above
    }

    /// The number is zero or more.
    pub open spec fn non_negative(self) -> bool {
        self == Magnitude::Zero || self.positive()
    }

    /// The number is one or more.
    pub open spec fn at_least_one(self) -> bool {
        self == Magnitude::One || self == Magnitude::Above
    }

    /// The number lies between zero and one, both included.
    pub open spec fn within_unit(self) -> bool {
        self == Magnitude::Zero || self == Magnitude::Fraction || self == Magnitude::One
    }

    pub fn is_positive(self) -> (b: bool)
        ensures
            b == self.positive(),
    {
        match self {
            Magnitude::Fraction | Magnitude::One | Magnitude::Above => true,
            _ => false,
        }
    }
}

/// The settings of a simulation, fixed for the lifetime of a simulator.
#[derive(Clone, Copy, Debug, PartialEq, Eq, Structural)]
pub struct Config {
    /// Cycles per trial.
    pub cycles: usize,
    /// Ants in the colony.
    pub ants: usize,
    /// Where the deposit strength lies.
    pub pheromone: Magnitude,
    /// How many of the best-ranked candidates take part in a selection.
    pub decision: usize,
    /// Food taken by an ant on arrival; zero means that ants do not eat.
    pub rate: u32,
    /// Whether a fed ant goes home and starts over.
    pub returns: bool,
    pub select: Selection,
    pub preference: Preference,
    pub metric: Metric,
    pub dispersion: Option<Dispersion>,
    /// Where the dispersion factor lies.
    pub factor: Magnitude,
    /// Seed of the random generator, if the run is to be repeatable.
    pub seed: Option<u64>,
}

/// A scheduled change of food: after the given cycle, the point holds the given amount.
#[derive(Clone, Copy, Debug, PartialEq, Eq, Structural)]
pub struct Action(usize, char, u32);

impl Action {
    pub fn new(cycle: usize, id: char, amount: u32) -> (action: Self)
        ensures
            action.values() == (cycle, id, amount),
    {
        Action(cycle, id, amount)
    }

    /// The cycle, the point and the amount.
    pub closed spec fn values(self) -> (usize, char, u32) {
        (self.0, self.1, self.2)
    }

    pub open spec fn cycle(self) -> usize {
        self.values().0
    }

    pub open spec fn id(self) -> char {
        self.values().1
    }

    pub open spec fn amount(self) -> u32 {
        self.values().2
    }

    #[inline]
    pub fn get_values(&self) -> (values: (usize, char, u32))
        ensures
            values == self.values(),
    {
        (self.0, self.1, self.2)
    }

    /// Reads an action from a text of the form `cycle,id,amount`.
    pub fn from_str(s: &str) -> (result: Result<Self, ParseError>)
        ensures
            match result {
                Ok(action) => action_text(s@) == Ok::<(usize, char, u32), ParseError>(
                    action.values(),
                ),
                Err(e) => action_text(s@) == Err::<(usize, char, u32), ParseError>(e),
            },
    {
        let text = chars_of(s);
        let fields = split_fields(&text);
        assert(texts(fields@).len() == fields@.len());
        if fields.len() != 3 {
            return Err(ParseError::Shape);
        }
        assert(texts(fields@)[0] == fields@[0]@ && texts(fields@)[1] == fields@[1]@ && texts(
            fields@,
        )[2] == fields@[2]@);
        let cycle = match read_unsigned(&fields[0], usize::MAX as u64) {
            Some(cycle) => cycle as usize,
            None => {
                return Err(ParseError::Number);
            },
        };
        let id = match read_single(&fields[1]) {
            Some(id) => id,
            None => {
                return Err(ParseError::Id);
            },
        };
        let amount = match read_unsigned(&fields[2], u32::MAX as u64) {
            Some(amount) => amount as u32,
            None => {
                return Err(ParseError::Number);
            },
        };
        Ok(Action(cycle, id, amount))
    }
}

impl core::str::FromStr for Action {
    type Err = ParseError;

    /// Reads an action from a text of the form `cycle,id,amount`.
    fn from_str(s: &str) -> (result: Result<Self, ParseError>)
        ensures
            match result {
                Ok(action) => action_text(s@) == Ok::<(usize, char, u32), ParseError>(
                    action.values(),
                ),
                Err(e) => action_text(s@) == Err::<(usize, char, u32), ParseError>(e),
            },
    {
        Action::from_str(s)
    }
}

/// A point as the grid declares it.
#[derive(Clone, Copy, Debug, PartialEq, Eq, Structural)]
pub enum PointInfo {
    Food(char, i16, i16, u32),
    Empty(char, i16, i16),
}

impl PointInfo {
    pub open spec fn id(self) -> char {
        match self {
            PointInfo::Empty(id, _, _) => id,
            PointInfo::Food(id, _, _, _) => id,
        }
    }

    pub open spec fn position(self) -> (i16, i16) {
        match self {
            PointInfo::Empty(_, x, y) => (x, y),
            PointInfo::Food(_, x, y, _) => (x, y),
        }
    }

    pub open spec fn food(self) -> u32 {
        match self {
            PointInfo::Empty(_, _, _) => 0,
            PointInfo::Food(_, _, _, amount) => amount,
        }
    }

    #[inline]
    pub fn get_id(&self) -> (id: char)
        ensures
            id == self.id(),
    {
        match self {
            PointInfo::Empty(id, _, _) => *id,
            PointInfo::Food(id, _, _, _) => *id,
        }
    }

    #[inline]
    pub fn get_position(&self) -> (position: (i16, i16))
        ensures
            position == self.position(),
    {
        match self {
            PointInfo::Empty(_, x, y) => (*x, *y),
            PointInfo::Food(_, x, y, _) => (*x, *y),
        }
    }

    /// A point declared with an amount of zero has no food.
    #[inline]
    pub fn has_food(&self) -> (b: bool)
        ensures
            b == (self.food() > 0),
    {
        match self {
            PointInfo::Empty(_, _, _) => false,
            PointInfo::Food(_, _, _, amount) => *amount != 0,
        }
    }

    #[inline]
    pub fn get_food(&self) -> (amount: u32)
        ensures
            amount == self.food(),
    {
        match self {
            PointInfo::Food(_, _, _, amount) => *amount,
            _ => 0,
        }
    }

    /// Reads a point from a text of the form `id,x,y` or `id,x,y,food`.
    pub fn from_str(s: &str) -> (result: Result<Self, ParseError>)
        ensures
            result == point_text(s@),
    {
        let text = chars_of(s);
        let fields = split_fields(&text);
        assert(texts(fields@).len() == fields@.len());
        let n = fields.len();
        if n != 3 && n != 4 {
            return Err(ParseError::Shape);
        }
        assert(forall|i: int| 0 <= i < n ==> texts(fields@)[i] == fields@[i]@);
        let id = match read_single(&fields[0]) {
            Some(id) => id,
            None => {
                return Err(ParseError::Id);
            },
        };
        let x = match read_signed(&fields[1], 0x8000, 0x7fff) {
            Some(x) => x as i16,
            None => {
                return Err(ParseError::Number);
            },
        };
        let y = match read_signed(&fields[2], 0x8000, 0x7fff) {
            Some(y) => y as i16,
            None => {
                return Err(ParseError::Number);
            },
        };
        if n == 3 {
            return Ok(PointInfo::Empty(id, x, y));
        }
        let food = match read_unsigned(&fields[3], u32::MAX as u64) {
            Some(food) => food as u32,
            None => {
                return Err(ParseError::Number);
            },
        };
        Ok(PointInfo::Food(id, x, y, food))
    }
}

impl core::str::FromStr for PointInfo {
    type Err = ParseError;

    /// Reads a point from a text of the form `id,x,y` or `id,x,y,food`.
    fn from_str(s: &str) -> (result: Result<Self, ParseError>)
        ensures
            result == point_text(s@),
    {
        PointInfo::from_str(s)
    }
}

/// Why a configuration cannot be run.
#[derive(Clone, Copy, Debug, PartialEq, Eq, Structural)]
pub enum ConfigValidationError {
    /// Fewer points than two, or more than the grid may hold.
    PointCount,
    /// Two points share an id.
    DuplicateIds,
    /// Two points share a position.
    DuplicatePositions,
    /// A coordinate lies outside the grid.
    OutsideGrid,
    /// The number of decision points is zero or exceeds the number of points.
    DecisionPoints,
    AntCount,
    CycleCount,
    /// The deposit strength is not above zero.
    PheromoneStrength,
    /// The dispersion factor does not suit the dispersion method.
    DispersionFactor,
    /// A scheduled action names a point that the grid does not have.
    ActionTarget,
    /// The anthill has food, or a scheduled action would give it some.
    AnthillFood,
    BatchSize,
}

/// A state of the graph that a validated configuration cannot lead to.
#[derive(Clone, Copy, Debug, PartialEq, Eq, Structural)]
pub enum GraphInvariantViolation {
    /// No point has any food left.
    NoFoodsource,
    /// An id that no point of the graph has.
    UnknownPoint,
}

/// Why an ant could not be given a next position.
#[derive(Clone, Copy, Debug, PartialEq, Eq, Structural)]
pub enum SelectionError {
    GraphInvariantViolation(GraphInvariantViolation),
    /// Every draw of the allowed number fell on a point that the ant has seen.
    StuckSelection,
}

} // verus!
