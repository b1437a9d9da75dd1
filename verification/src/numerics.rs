use vstd::prelude::*;
use crate::tech::{Dispersion, Preference};
use crate::utils::distance::Length;

verus! {

/// The arithmetic on real numbers that the simulation leaves to its caller.
///
/// The graph stores pheromone levels of a type `L` that it never looks into,
/// and ranks scores by integer keys: a larger score has a larger key. It
/// decides when a level changes, by which formula, and which score is asked
/// for; what the formula gives, the caller's arithmetic says. Nothing is
/// assumed of the answers: every index that comes back is checked, and the
/// contracts of the library say of a level or a key no more than which
/// question it answers.
///
/// A point that an ant may not go to is given the key `consts::bias::MINUTE`
/// without a question. Keys should be made as the description of that
/// constant says, so that such a point ranks below every point whose
/// score matters.
pub trait Numerics<L> {
    /// The level of a point after one more ant has laid its trail over it:
    /// the level and the deposit strength, added.
    fn deposit(&self, level: &L) -> L;

    /// Linear decay: the level less the factor.
    fn linear(&self, level: &L) -> L;

    /// Exponential decay: the level divided by the factor.
    fn exponential(&self, level: &L) -> L;

    /// Relative decay: the level times what the factor leaves of one.
    fn relative(&self, level: &L) -> L;

    /// Whether a level is below zero, or is no number at all.
    fn is_negative(&self, level: &L) -> bool;

    /// The key of the score of a point by its distance alone: the inverse
    /// of the distance.
    fn distance(&self, distance: Length) -> i64;

    /// The key of the score of a point by its pheromone alone: the level
    /// and one, added.
    fn pheromone(&self, level: &L) -> i64;

    /// The key of the score of a point by its food alone: the food and
    /// one, added.
    fn food(&self, food: u32) -> i64;

    /// The key of the score by pheromone, divided by the distance.
    fn phero_dist(&self, level: &L, distance: Length) -> i64;

    /// The key of the score by food, divided by the distance.
    fn food_dist(&self, food: u32, distance: Length) -> i64;

    /// The key of the score by pheromone times the score by food.
    fn phero_food(&self, level: &L, food: u32) -> i64;

    /// The key of the score by pheromone times the score by food, divided
    /// by the distance.
    fn phero_food_dist(&self, level: &L, food: u32, distance: Length) -> i64;

    /// The roulette wheel over the scores of the given keys: for each
    /// key, the share of its score in the sum of all the scores.
    fn wheel(&self, keys: &Vec<i64>) -> Vec<L>;

    /// A number drawn at random, from zero up to one and below it.
    fn chance(&self) -> L;

    /// The sum of two numbers.
    fn add(&self, left: &L, right: &L) -> L;

    /// Whether the left number is below the right one.
    fn less(&self, left: &L, right: &L) -> bool;
}

/// `after` is what the arithmetic makes of the level `before` when an ant
/// lays its trail over the point.
pub open spec fn deposited<L, N: Numerics<L>>(numerics: &N, before: L, after: L) -> bool {
    call_ensures(N::deposit, (numerics, &before), after)
}

/// `after` is what the formula of `method` makes of the level `before`.
pub open spec fn dispersed<L, N: Numerics<L>>(
    numerics: &N,
    method: Dispersion,
    before: L,
    after: L,
) -> bool {
    match method {
        Dispersion::Linear => call_ensures(N::linear, (numerics, &before), after),
        Dispersion::Exponential => call_ensures(N::exponential, (numerics, &before), after),
        Dispersion::Relative => call_ensures(N::relative, (numerics, &before), after),
    }
}

/// `verdict` is what the arithmetic says to the question whether `level` is
/// below zero.
pub open spec fn judged<L, N: Numerics<L>>(numerics: &N, level: L, verdict: bool) -> bool {
    call_ensures(N::is_negative, (numerics, &level), verdict)
}

/// `after` is the level `before` after one step of decay by `method`: what
/// the formula makes of it, or `blank` in its place where that is below
/// zero.
pub open spec fn decayed<L, N: Numerics<L>>(
    numerics: &N,
    method: Dispersion,
    before: L,
    after: L,
    blank: L,
) -> bool {
    exists|raw: L| #[trigger]
        dispersed(numerics, method, before, raw) && {
            ||| judged(numerics, raw, false) && after == raw
            ||| judged(numerics, raw, true) && after == blank
        }
}

/// No decay leaves a level below zero: a level that has decayed is the
/// blank level, or one that the arithmetic calls not negative.
pub proof fn decayed_is_not_negative<L, N: Numerics<L>>(
    numerics: &N,
    method: Dispersion,
    before: L,
    after: L,
    blank: L,
)
    requires
        decayed(numerics, method, before, after, blank),
    ensures
        after == blank || judged(numerics, after, false),
{
}

/// `key` is the key that the formula of `preference` gives to a point with
/// this pheromone and food at this distance. Each formula is asked with
/// what it weighs and nothing else.
pub open spec fn scored<L, N: Numerics<L>>(
    numerics: &N,
    preference: Preference,
    level: L,
    food: u32,
    distance: Length,
    key: i64,
) -> bool {
    match preference {
        Preference::Distance => call_ensures(N::distance, (numerics, distance), key),
        Preference::Pheromone => call_ensures(N::pheromone, (numerics, &level), key),
        Preference::Food => call_ensures(N::food, (numerics, food), key),
        Preference::PD => call_ensures(N::phero_dist, (numerics, &level, distance), key),
        Preference::FD => call_ensures(N::food_dist, (numerics, food, distance), key),
        Preference::PF => call_ensures(N::phero_food, (numerics, &level, food), key),
        Preference::PFD => call_ensures(
            N::phero_food_dist,
            (numerics, &level, food, distance),
            key,
        ),
    }
}

/// `sum` is what the arithmetic gives as the sum of the two numbers.
pub open spec fn added<L, N: Numerics<L>>(numerics: &N, left: L, right: L, sum: L) -> bool {
    call_ensures(N::add, (numerics, &left, &right), sum)
}

/// `verdict` is what the arithmetic says to the question whether `left` is
/// below `right`.
pub open spec fn compared<L, N: Numerics<L>>(
    numerics: &N,
    left: L,
    right: L,
    verdict: bool,
) -> bool {
    call_ensures(N::less, (numerics, &left, &right), verdict)
}

/// The wheel stops on share `pick`: `sums` holds the shares added up, one
/// after the other, as far as `pick`; no sum before the last exceeds
/// `chance`; and the last does, unless the wheel has no share left.
pub open spec fn walked<L, N: Numerics<L>>(
    numerics: &N,
    wheel: Seq<L>,
    chance: L,
    sums: Seq<L>,
    pick: usize,
) -> bool {
    &&& pick < wheel.len()
    &&& sums.len() == pick + 1
    &&& sums[0] == wheel[0]
    &&& forall|i: int|
        0 <= i < pick ==> added(numerics, #[trigger] sums[i], wheel[i + 1], sums[i + 1])
    &&& forall|i: int| 0 <= i < pick ==> compared(numerics, chance, #[trigger] sums[i], false)
    &&& pick + 1 < wheel.len() ==> compared(numerics, chance, sums[pick as int], true)
}

/// The arithmetic gives one key to one question: asked twice for the score
/// of the same pheromone, food and distance, it answers the same.
pub open spec fn scores_once<L, N: Numerics<L>>(numerics: &N) -> bool {
    forall|preference: Preference, level: L, food: u32, distance: Length, one: i64, other: i64|
        #[trigger] scored(numerics, preference, level, food, distance, one) && #[trigger] scored(
            numerics,
            preference,
            level,
            food,
            distance,
            other,
        ) ==> one == other
}

/// The arithmetic gives one answer to one question, wherever the library
/// asks it for a level: a deposit, a step of decay, and whether a level is
/// below zero; and it gives one key to one question.
pub open spec fn single_valued<L, N: Numerics<L>>(numerics: &N) -> bool {
    &&& scores_once(numerics)
    &&& forall|before: L, one: L, other: L|
        #[trigger] deposited(numerics, before, one) && #[trigger] deposited(
            numerics,
            before,
            other,
        ) ==> one == other
    &&& forall|method: Dispersion, before: L, one: L, other: L|
        #[trigger] dispersed(numerics, method, before, one) && #[trigger] dispersed(
            numerics,
            method,
            before,
            other,
        ) ==> one == other
    &&& forall|level: L, one: bool, other: bool|
        #[trigger] judged(numerics, level, one) && #[trigger] judged(numerics, level, other)
            ==> one == other
}

/// `pick` is where a turn of the roulette wheel over these keys stops.
///
/// The wheel is the arithmetic's, one share for each key, and so is the
/// chance. The wheel stops on the first share with which the shares so
/// far add up to more than the chance, and on the last share if there is
/// none. A wheel that does not have one share for each key stops
/// nowhere: the pick is the number of keys, which is the index of no key.
pub open spec fn spun<L, N: Numerics<L>>(numerics: &N, keys: &Vec<i64>, pick: usize) -> bool {
    exists|wheel: Vec<L>| #[trigger]
        call_ensures(N::wheel, (numerics, keys), wheel) && if wheel@.len() == keys@.len()
            && keys@.len() > 0 {
            exists|chance: L, sums: Seq<L>|
                call_ensures(N::chance, (numerics,), chance) && #[trigger] walked(
                    numerics,
                    wheel@,
                    chance,
                    sums,
                    pick,
                )
        } else {
            pick == keys@.len()
        }
}

/// One turn of the roulette wheel over the given keys, best first: the
/// index of the key on which the wheel stops. See `spun`.
pub fn spin<L: Copy, N: Numerics<L>>(numerics: &N, keys: &Vec<i64>) -> (pick: usize)
    ensures
        spun(numerics, keys, pick),
        pick <= keys@.len(),
{
    let wheel = numerics.wheel(keys);
    let n = wheel.len();
    if n != keys.len() || n == 0 {
        return keys.len();
    }
    let chance = numerics.chance();
    let mut index: usize = 0;
    let mut rest: L = wheel[0];
    let ghost mut sums: Seq<L> = seq![rest];
    let mut exceeds = numerics.less(&chance, &rest);
    while !exceeds && index + 1 < n
        invariant
            index < n,
            n == wheel@.len(),
            sums.len() == index + 1,
            sums[0] == wheel@[0],
            sums[index as int] == rest,
            forall|i: int|
                0 <= i < index ==> added(numerics, #[trigger] sums[i], wheel@[i + 1], sums[i + 1]),
            forall|i: int| 0 <= i < index ==> compared(numerics, chance, #[trigger] sums[i], false),
            compared(numerics, chance, rest, exceeds),
        decreases n - index,
    {
        let ghost before = sums;
        rest = numerics.add(&rest, &wheel[index + 1]);
        index += 1;
        proof {
            sums = sums.push(rest);
            assert(forall|i: int| 0 <= i < index ==> sums[i] == before[i]);
        }
        exceeds = numerics.less(&chance, &rest);
    }
    proof {
        assert(walked(numerics, wheel@, chance, sums, index));
    }
    index
}

/// Applies the formula of the dispersion method to a level.
pub fn disperse<L, N: Numerics<L>>(numerics: &N, method: Dispersion, level: &L) -> (raw: L)
    ensures
        dispersed(numerics, method, *level, raw),
{
    match method {
        Dispersion::Linear => numerics.linear(level),
        Dispersion::Exponential => numerics.exponential(level),
        Dispersion::Relative => numerics.relative(level),
    }
}

/// Asks the formula of the preference method for the key of a point.
pub fn score<L, N: Numerics<L>>(
    numerics: &N,
    preference: Preference,
    level: &L,
    food: u32,
    distance: Length,
) -> (key: i64)
    ensures
        scored(numerics, preference, *level, food, distance, key),
{
    match preference {
        Preference::Distance => numerics.distance(distance),
        Preference::Pheromone => numerics.pheromone(level),
        Preference::Food => numerics.food(food),
        Preference::PD => numerics.phero_dist(level, distance),
        Preference::FD => numerics.food_dist(food, distance),
        Preference::PF => numerics.phero_food(level, food),
        Preference::PFD => numerics.phero_food_dist(level, food, distance),
    }
}

} // verus!
