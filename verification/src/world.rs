use vstd::prelude::*;
use crate::consts::bias::MINUTE;
use crate::consts::{MAX_DRAWS, MAX_POINTS, MIN_POINTS};
use crate::numerics::{
    decayed, deposited, disperse, dispersed, judged, score, scored, scores_once, spin, spun,
    Numerics,
};
use crate::random::random_below;
use crate::ranking::{is_ranking, rank, ranking_is_unique, ranking_starts_with_best};
use crate::simul::{has_unique_ids, ids_distinct};
use crate::tech::{Config, GraphInvariantViolation, PointInfo, Selection, SelectionError};
use crate::utils::distance::length;
use crate::utils::{Auxil, Point};

verus! {

/// No two points share an id.
pub open spec fn ids_unique(points: Seq<Point>) -> bool {
    forall|i: int, j: int| 0 <= i < j < points.len() ==> points[i].id != points[j].id
}

/// Some point has this id.
pub open spec fn has_point(points: Seq<Point>, id: char) -> bool {
    exists|i: int| 0 <= i < points.len() && (#[trigger] points[i]).id == id
}

/// The point with this id holds food.
pub open spec fn is_source(points: Seq<Point>, id: char) -> bool {
    exists|i: int| 0 <= i < points.len() && (#[trigger] points[i]).id == id && points[i].food > 0
}

/// Some point holds food.
pub open spec fn has_source(points: Seq<Point>) -> bool {
    exists|i: int| 0 <= i < points.len() && (#[trigger] points[i]).food > 0
}

/// The ids of the points that hold food.
pub open spec fn foodsource_ids(points: Seq<Point>) -> Set<char> {
    Set::new(|id: char| is_source(points, id))
}

/// The points, with the food of the point `id` set to `amount`.
pub open spec fn with_food(points: Seq<Point>, id: char, amount: u32) -> Seq<Point> {
    Seq::new(
        points.len(),
        |i: int|
            if points[i].id == id {
                Point { food: amount, ..points[i] }
            } else {
                points[i]
            },
    )
}

/// What is left of `food` after a bite of `rate`: never less than nothing.
pub open spec fn eaten(food: u32, rate: u32) -> u32 {
    if food >= rate {
        (food - rate) as u32
    } else {
        0
    }
}

/// The points as they were declared: each holds its first amount of food again.
pub open spec fn restored(points: Seq<Point>) -> Seq<Point> {
    Seq::new(points.len(), |i: int| points[i].restored())
}

/// The points that a grid declares.
pub open spec fn declared(grid: Seq<PointInfo>) -> Seq<Point> {
    Seq::new(grid.len(), |i: int| Point::of(grid[i]))
}

/// A grid and a number of decision points from which a graph can be built.
pub open spec fn buildable(grid: Seq<PointInfo>, config: Config) -> bool {
    &&& MIN_POINTS <= grid.len() <= MAX_POINTS
    &&& ids_distinct(grid)
    &&& 1 <= config.decision <= grid.len()
}

/// An ant with this history may go to point `i`: it has not been there, or
/// it stands on a point that holds food.
pub open spec fn viable(points: Seq<Point>, visited: Seq<char>, i: int) -> bool {
    !visited.contains(points[i].id) || is_source(points, visited.last())
}

/// A trail along `visited` changes the pheromone of point `i`: the ant has
/// been there, and it is not the anthill.
pub open spec fn covered(points: Seq<Point>, anthill: char, visited: Seq<char>, i: int) -> bool {
    visited.contains(points[i].id) && points[i].id != anthill
}

/// The candidate that a draw of `pick` among the best `k` gives: none when
/// the draw is out of range or falls on a point that the ant has seen.
pub open spec fn candidate_at(
    auxils: Seq<Auxil>,
    order: Seq<usize>,
    visited: Seq<char>,
    k: usize,
    pick: usize,
) -> Option<char> {
    if pick < k && pick < order.len() && order[pick as int] < auxils.len() && !visited.contains(
        auxils[order[pick as int] as int].id,
    ) {
        Some(auxils[order[pick as int] as int].id)
    } else {
        None
    }
}

/// The keys of the best `k` candidates of a ranking, best first.
pub open spec fn best_keys(auxils: Seq<Auxil>, order: Seq<usize>, k: usize) -> Seq<i64> {
    Seq::new(k as nat, |j: int| auxils[order[j] as int].ratio)
}

/// Eating never leaves less than nothing: what is left is the food less
/// the bite, and nothing where the bite is at least the food.
pub proof fn eaten_stops_at_nothing(food: u32, rate: u32)
    ensures
        0 <= eaten(food, rate) <= food,
        food >= rate ==> eaten(food, rate) == food - rate,
        eaten(food, rate) == 0 <==> food <= rate,
{
}

/// A point whose food is eaten up holds food no longer: its id is out of
/// the set of food sources.
pub proof fn eaten_up_is_no_source(points: Seq<Point>, id: char)
    requires
        forall|i: int| 0 <= i < points.len() && (#[trigger] points[i]).id == id ==> points[i].food == 0,
    ensures
        !foodsource_ids(points).contains(id),
{
}

/// Greedy selection takes the best: the position that it selects is the
/// id of a candidate whose key no candidate's key exceeds, and the ant has
/// not been there.
pub proof fn greedy_takes_the_best<L: Copy, N: Numerics<L>>(
    world: &World<L>,
    auxils: Seq<Auxil>,
    order: Seq<usize>,
    visited: Seq<char>,
    numerics: &N,
    id: char,
    p: int,
)
    requires
        world.wf(),
        world.config().select == Selection::Greedy,
        auxils.len() == world.points().len(),
        is_ranking(auxils, order),
        world.selected(auxils, order, visited, numerics, Ok(id)),
        0 <= p < auxils.len(),
    ensures
        id == auxils[order[0] as int].id,
        auxils[order[0] as int].ratio >= auxils[p].ratio,
        !visited.contains(id),
{
    ranking_starts_with_best(auxils, order, p);
}

/// Greedy selection goes to the best: a next position that it gives is
/// the id of a point that the ant has not seen, and in the appraisal from
/// which it was taken no point has a larger key than that point.
pub proof fn greedy_position_is_best<L: Copy, N: Numerics<L>>(
    world: &World<L>,
    visited: Seq<char>,
    numerics: &N,
    id: char,
)
    requires
        world.wf(),
        world.config().select == Selection::Greedy,
        world.positioned(visited, numerics, Ok(id)),
    ensures
        !visited.contains(id),
        exists|here: int, auxils: Seq<Auxil>, best: int|
            {
                &&& 0 <= here < world.points().len()
                &&& world.points()[here].id == visited.last()
                &&& #[trigger] world.appraised(visited, here, numerics, auxils)
                &&& 0 <= best < auxils.len()
                &&& (#[trigger] auxils[best]).id == id
                &&& world.points()[best].id == id
                &&& forall|p: int| 0 <= p < auxils.len() ==> auxils[best].ratio >= auxils[p].ratio
            },
{
    let (here, auxils, order) = choose|here: int, auxils: Seq<Auxil>, order: Seq<usize>|
        {
            &&& 0 <= here < world.points().len()
            &&& world.points()[here].id == visited.last()
            &&& #[trigger] world.appraised(visited, here, numerics, auxils)
            &&& #[trigger] is_ranking(auxils, order)
            &&& world.selected(auxils, order, visited, numerics, Ok(id))
        };
    let best = order[0] as int;
    assert forall|p: int| 0 <= p < auxils.len() implies auxils[best].ratio >= auxils[p].ratio by {
        greedy_takes_the_best(world, auxils, order, visited, numerics, id, p);
    }
    greedy_takes_the_best(world, auxils, order, visited, numerics, id, 0);
    assert(world.appraised(visited, here, numerics, auxils) && auxils[best].id == id);
}

/// Greedy selection leaves nothing to chance: where the arithmetic gives
/// one key to one question, the same ant on the same graph is given the
/// same next position, or fails in the same way, every time.
pub proof fn greedy_position_is_determined<L: Copy, N: Numerics<L>>(
    world: &World<L>,
    visited: Seq<char>,
    numerics: &N,
    first: Result<char, SelectionError>,
    second: Result<char, SelectionError>,
)
    requires
        world.wf(),
        world.config().select == Selection::Greedy,
        scores_once(numerics),
        world.positioned(visited, numerics, first),
        world.positioned(visited, numerics, second),
    ensures
        first == second,
{
    if has_source(world.points()) && visited.len() > 0 && has_point(
        world.points(),
        visited.last(),
    ) {
        let (h1, a1, o1) = choose|here: int, auxils: Seq<Auxil>, order: Seq<usize>|
            {
                &&& 0 <= here < world.points().len()
                &&& world.points()[here].id == visited.last()
                &&& #[trigger] world.appraised(visited, here, numerics, auxils)
                &&& #[trigger] is_ranking(auxils, order)
                &&& world.selected(auxils, order, visited, numerics, first)
            };
        let (h2, a2, o2) = choose|here: int, auxils: Seq<Auxil>, order: Seq<usize>|
            {
                &&& 0 <= here < world.points().len()
                &&& world.points()[here].id == visited.last()
                &&& #[trigger] world.appraised(visited, here, numerics, auxils)
                &&& #[trigger] is_ranking(auxils, order)
                &&& world.selected(auxils, order, visited, numerics, second)
            };
        assert(h1 == h2);
        assert forall|i: int| 0 <= i < a1.len() implies a1[i] == a2[i] by {
            assert(a1[i].id == a2[i].id);
            assert(a1[i].ratio == a2[i].ratio);
        }
        assert(a1 =~= a2);
        ranking_is_unique(a1, o1, o2);
    }
}

/// Two graphs of the same layout have the same ids.
pub proof fn layout_keeps_points<L: Copy>(before: &World<L>, after: &World<L>, id: char)
    requires
        after.same_layout(before),
    ensures
        has_point(after.points(), id) == has_point(before.points(), id),
{
    if has_point(before.points(), id) {
        let i = choose|i: int|
            0 <= i < before.points().len() && (#[trigger] before.points()[i]).id == id;
        assert(after.points()[i].id == id);
    }
    if has_point(after.points(), id) {
        let i = choose|i: int|
            0 <= i < after.points().len() && (#[trigger] after.points()[i]).id == id;
        assert(before.points()[i].id == id);
    }
}

/// Whether `id` stands in `list`.
pub fn contains(list: &Vec<char>, id: char) -> (found: bool)
    ensures
        found == list@.contains(id),
{
    let n = list.len();
    let mut i: usize = 0;
    while i < n
        invariant
            i <= n,
            n == list@.len(),
            forall|j: int| 0 <= j < i ==> list@[j] != id,
        decreases n - i,
    {
        if list[i] == id {
            return true;
        }
        i += 1;
    }
    false
}

/// The candidate that a draw gives, or none: see `candidate_at`.
pub fn candidate(
    auxils: &Vec<Auxil>,
    order: &Vec<usize>,
    visited: &Vec<char>,
    k: usize,
    pick: usize,
) -> (chosen: Option<char>)
    ensures
        chosen == candidate_at(auxils@, order@, visited@, k, pick),
{
    if pick < k && pick < order.len() && order[pick] < auxils.len() {
        let id = auxils[order[pick]].id;
        if !contains(visited, id) {
            return Some(id);
        }
    }
    None
}

/// The graph of points: where they lie, the food and the pheromone on them,
/// and the settings by which ants choose among them.
pub struct World<L> {
    points: Vec<Point>,
    pheromones: Vec<L>,
    anthill_id: char,
    blank: L,
    config: Config,
}

impl<L: Copy> World<L> {
    /// The points, in the order of their declaration.
    pub closed spec fn points(&self) -> Seq<Point> {
        self.points@
    }

    /// The pheromone level of each point, in the same order.
    pub closed spec fn pheromones(&self) -> Seq<L> {
        self.pheromones@
    }

    /// The id of the anthill.
    pub closed spec fn anthill(&self) -> char {
        self.anthill_id
    }

    /// The level of a point that no ant has reached.
    pub closed spec fn blank(&self) -> L {
        self.blank
    }

    /// The settings that the graph was built with.
    pub closed spec fn config(&self) -> Config {
        self.config
    }

    /// What holds of every graph: it has between two and a hundred points
    /// with ids of their own, a level for each, the first point as its
    /// anthill, and no more decision points than points.
    pub open spec fn wf(&self) -> bool {
        &&& MIN_POINTS <= self.points().len() <= MAX_POINTS
        &&& self.pheromones().len() == self.points().len()
        &&& ids_unique(self.points())
        &&& self.anthill() == self.points()[0].id
        &&& 1 <= self.config().decision <= self.points().len()
    }

    /// The other graph has the same points in the same places, the same
    /// anthill and the same settings; food and pheromone may differ.
    pub open spec fn same_layout(&self, other: &Self) -> bool {
        &&& self.anthill() == other.anthill()
        &&& self.blank() == other.blank()
        &&& self.config() == other.config()
        &&& self.points().len() == other.points().len()
        &&& self.pheromones().len() == other.pheromones().len()
        &&& forall|i: int|
            0 <= i < self.points().len() ==> {
                &&& (#[trigger] self.points()[i]).id == other.points()[i].id
                &&& self.points()[i].x == other.points()[i].x
                &&& self.points()[i].y == other.points()[i].y
                &&& self.points()[i].initial_food == other.points()[i].initial_food
            }
    }

    /// The graph is as it was built: no pheromone anywhere, and on every
    /// point the food that it was declared with.
    pub open spec fn pristine(&self) -> bool {
        &&& forall|i: int|
            0 <= i < self.pheromones().len() ==> (#[trigger] self.pheromones()[i]) == self.blank()
        &&& forall|i: int|
            0 <= i < self.points().len() ==> (#[trigger] self.points()[i]).food
                == self.points()[i].initial_food
    }

    /// Builds the graph that the grid declares, with the level `blank`, the
    /// level of no pheromone, on every point. The first point is the
    /// anthill. There is no such graph where the grid has fewer than two
    /// or more than a hundred points, where two points share an id, or
    /// where the number of decision points is zero or above the number of
    /// points.
    pub fn new(point_list: Vec<PointInfo>, config: &Config, blank: L) -> (world: Option<Self>)
        ensures
            world is Some <==> buildable(point_list@, *config),
            world matches Some(w) ==> {
                &&& w.wf()
                &&& w.pristine()
                &&& w.points() == declared(point_list@)
                &&& w.pheromones() == Seq::new(point_list@.len(), |i: int| blank)
                &&& w.anthill() == point_list@[0].id()
                &&& w.blank() == blank
                &&& w.config() == *config
            },
    {
        let n = point_list.len();
        if n < MIN_POINTS || n > MAX_POINTS || config.decision < 1 || config.decision > n {
            return None;
        }
        if !has_unique_ids(&point_list) {
            return None;
        }
        let anthill_id = point_list[0].get_id();
        let mut points: Vec<Point> = Vec::new();
        let mut pheromones: Vec<L> = Vec::new();
        let mut i: usize = 0;
        while i < n
            invariant
                i <= n,
                n == point_list@.len(),
                points@.len() == i,
                pheromones@.len() == i,
                forall|j: int| 0 <= j < i ==> points@[j] == Point::of(point_list@[j]),
                forall|j: int| 0 <= j < i ==> pheromones@[j] == blank,
            decreases n - i,
        {
            let point: Point = Point::from(point_list[i]);
            points.push(point);
            pheromones.push(blank);
            i += 1;
        }
        assert(points@ =~= declared(point_list@));
        assert(pheromones@ =~= Seq::new(point_list@.len(), |i: int| blank));
        Some(World { points, pheromones, anthill_id, blank, config: *config })
    }

    /// Where the point with this id stands, if there is one.
    pub fn locate(&self, id: char) -> (place: Option<usize>)
        ensures
            place is Some <==> has_point(self.points(), id),
            place matches Some(i) ==> i < self.points().len() && self.points()[i as int].id == id,
    {
        let n = self.points.len();
        let mut i: usize = 0;
        while i < n
            invariant
                i <= n,
                n == self.points@.len(),
                forall|j: int| 0 <= j < i ==> (#[trigger] self.points@[j]).id != id,
            decreases n - i,
        {
            if self.points[i].id == id {
                return Some(i);
            }
            i += 1;
        }
        None
    }

    /// Whether any point holds food.
    pub fn has_foodsource(&self) -> (found: bool)
        ensures
            found == has_source(self.points()),
    {
        let n = self.points.len();
        let mut i: usize = 0;
        while i < n
            invariant
                i <= n,
                n == self.points@.len(),
                forall|j: int| 0 <= j < i ==> (#[trigger] self.points@[j]).food == 0,
            decreases n - i,
        {
            if self.points[i].food > 0 {
                return true;
            }
            i += 1;
        }
        false
    }

    /// Whether the point with this id holds food.
    pub fn is_foodsource(&self, position_id: &char) -> (found: bool)
        ensures
            found == foodsource_ids(self.points()).contains(*position_id),
    {
        let n = self.points.len();
        let mut i: usize = 0;
        while i < n
            invariant
                i <= n,
                n == self.points@.len(),
                forall|j: int|
                    0 <= j < i ==> !((#[trigger] self.points@[j]).id == *position_id
                        && self.points@[j].food > 0),
            decreases n - i,
        {
            if self.points[i].id == *position_id && self.points[i].food > 0 {
                return true;
            }
            i += 1;
        }
        false
    }

    /// Sets the food of the point with this id.
    pub fn set_foodsource(&mut self, position_id: char, amount: u32) -> (result: Result<
        (),
        GraphInvariantViolation,
    >)
        requires
            old(self).wf(),
        ensures
            final(self).wf(),
            final(self).same_layout(old(self)),
            final(self).pheromones() == old(self).pheromones(),
            final(self).points() == with_food(old(self).points(), position_id, amount),
            result == if has_point(old(self).points(), position_id) {
                Ok::<(), GraphInvariantViolation>(())
            } else {
                Err(GraphInvariantViolation::UnknownPoint)
            },
            has_point(old(self).points(), position_id) ==> (foodsource_ids(
                final(self).points(),
            ).contains(position_id) <==> amount > 0),
    {
        match self.locate(position_id) {
            None => {
                assert(self.points@ =~= with_food(self.points@, position_id, amount));
                Err(GraphInvariantViolation::UnknownPoint)
            },
            Some(i) => {
                let mut point = self.points[i];
                point.food = amount;
                self.points.set(i, point);
                assert(self.points@ =~= with_food(old(self).points@, position_id, amount));
                assert(self.points@[i as int].id == position_id);
                Ok(())
            },
        }
    }

    /// An ant eats at the point with this id: the food there falls by the
    /// consume rate, and stops at nothing.
    pub fn consume_foodsource(&mut self, position_id: char) -> (result: Result<
        (),
        GraphInvariantViolation,
    >)
        requires
            old(self).wf(),
        ensures
            final(self).wf(),
            final(self).same_layout(old(self)),
            final(self).pheromones() == old(self).pheromones(),
            forall|i: int|
                0 <= i < old(self).points().len() ==> (#[trigger] final(self).points()[i]).food
                    == if old(self).points()[i].id == position_id {
                    eaten(old(self).points()[i].food, old(self).config().rate)
                } else {
                    old(self).points()[i].food
                },
            result == if has_point(old(self).points(), position_id) {
                Ok::<(), GraphInvariantViolation>(())
            } else {
                Err(GraphInvariantViolation::UnknownPoint)
            },
            forall|i: int|
                0 <= i < old(self).points().len() && (#[trigger] old(self).points()[i]).id
                    == position_id ==> (foodsource_ids(final(self).points()).contains(position_id)
                    <==> old(self).points()[i].food > old(self).config().rate),
    {
        match self.locate(position_id) {
            None => Err(GraphInvariantViolation::UnknownPoint),
            Some(i) => {
                let mut point = self.points[i];
                point.food = point.food.saturating_sub(self.config.rate);
                self.points.set(i, point);
                assert(self.points@[i as int].id == position_id);
                Ok(())
            },
        }
    }

    /// Puts the graph back as it was built: no pheromone, and the food that
    /// the grid declared.
    pub fn reset(&mut self)
        requires
            old(self).wf(),
        ensures
            final(self).wf(),
            final(self).same_layout(old(self)),
            final(self).pristine(),
            final(self).points() == restored(old(self).points()),
            final(self).pheromones() == Seq::new(
                old(self).points().len(),
                |i: int| old(self).blank(),
            ),
    {
        let n = self.points.len();
        let mut i: usize = 0;
        while i < n
            invariant
                i <= n,
                n == old(self).points@.len(),
                self.points@.len() == n,
                self.pheromones@.len() == n,
                self.anthill_id == old(self).anthill_id,
                self.blank == old(self).blank,
                self.config == old(self).config,
                forall|j: int| 0 <= j < i ==> self.points@[j] == old(self).points@[j].restored(),
                forall|j: int| i <= j < n ==> self.points@[j] == old(self).points@[j],
                forall|j: int| 0 <= j < i ==> self.pheromones@[j] == self.blank,
            decreases n - i,
        {
            let mut point = self.points[i];
            point.reset();
            self.points.set(i, point);
            self.pheromones.set(i, self.blank);
            i += 1;
        }
        assert(self.points@ =~= restored(old(self).points@));
        assert(self.pheromones@ =~= Seq::new(old(self).points@.len(), |i: int| old(self).blank));
    }

    /// Lays an ant's trail: every point on the route but the anthill gets
    /// one deposit of pheromone.
    pub fn cover_route<N: Numerics<L>>(&mut self, visited: &Vec<char>, numerics: &N)
        requires
            old(self).wf(),
        ensures
            final(self).wf(),
            final(self).same_layout(old(self)),
            final(self).points() == old(self).points(),
            forall|i: int|
                0 <= i < old(self).points().len() ==> if covered(
                    old(self).points(),
                    old(self).anthill(),
                    visited@,
                    i,
                ) {
                    deposited(
                        numerics,
                        old(self).pheromones()[i],
                        #[trigger] final(self).pheromones()[i],
                    )
                } else {
                    final(self).pheromones()[i] == old(self).pheromones()[i]
                },
    {
        let n = self.points.len();
        let mut i: usize = 0;
        while i < n
            invariant
                i <= n,
                n == self.points@.len(),
                self.pheromones@.len() == n,
                self.points@ == old(self).points@,
                self.anthill_id == old(self).anthill_id,
                self.blank == old(self).blank,
                self.config == old(self).config,
                forall|j: int|
                    0 <= j < i ==> if covered(self.points@, self.anthill_id, visited@, j) {
                        deposited(numerics, old(self).pheromones@[j], #[trigger] self.pheromones@[j])
                    } else {
                        self.pheromones@[j] == old(self).pheromones@[j]
                    },
                forall|j: int| i <= j < n ==> self.pheromones@[j] == old(self).pheromones@[j],
            decreases n - i,
        {
            let id = self.points[i].id;
            if id != self.anthill_id && contains(visited, id) {
                let level = numerics.deposit(&self.pheromones[i]);
                self.pheromones.set(i, level);
            }
            i += 1;
        }
    }

    /// Lets the pheromone decay by one step, if the settings name a way of
    /// decay; without one, nothing changes. No level falls below zero: in
    /// place of one that would, the point gets the blank level.
    pub fn disperse_pheromons<N: Numerics<L>>(&mut self, numerics: &N)
        requires
            old(self).wf(),
        ensures
            final(self).wf(),
            old(self).disperses_to(final(self), numerics),
            old(self).config().dispersion is Some ==> forall|i: int|
                0 <= i < old(self).pheromones().len() ==> (#[trigger] final(self).pheromones()[i])
                    == old(self).blank() || judged(numerics, final(self).pheromones()[i], false),
    {
        if let Some(method) = self.config.dispersion {
            let n = self.pheromones.len();
            let mut i: usize = 0;
            while i < n
                invariant
                    i <= n,
                    n == self.pheromones@.len(),
                    n == old(self).pheromones@.len(),
                    self.points@ == old(self).points@,
                    self.anthill_id == old(self).anthill_id,
                    self.blank == old(self).blank,
                    self.config == old(self).config,
                    forall|j: int|
                        0 <= j < i ==> decayed(
                            numerics,
                            method,
                            old(self).pheromones@[j],
                            #[trigger] self.pheromones@[j],
                            self.blank,
                        ),
                    forall|j: int|
                        0 <= j < i ==> (#[trigger] self.pheromones@[j]) == self.blank || judged(
                            numerics,
                            self.pheromones@[j],
                            false,
                        ),
                    forall|j: int| i <= j < n ==> self.pheromones@[j] == old(self).pheromones@[j],
                decreases n - i,
            {
                let raw = disperse(numerics, method, &self.pheromones[i]);
                let level = if numerics.is_negative(&raw) {
                    self.blank
                } else {
                    raw
                };
                assert(dispersed(numerics, method, old(self).pheromones@[i as int], raw));
                self.pheromones.set(i, level);
                i += 1;
            }
        }
    }

    #[inline]
    pub fn get_anthill(&self) -> (id: char)
        ensures
            id == self.anthill(),
    {
        self.anthill_id
    }

    #[inline]
    pub fn get_number_of_points(&self) -> (n: usize)
        ensures
            n == self.points().len(),
    {
        self.points.len()
    }

    #[inline]
    pub fn do_ants_consume(&self) -> (b: bool)
        ensures
            b == (self.config().rate != 0),
    {
        self.config.rate != 0
    }

    #[inline]
    pub fn do_ants_return(&self) -> (b: bool)
        ensures
            b == self.config().returns,
    {
        self.config.returns
    }

    #[inline]
    pub fn get_config(&self) -> (config: &Config)
        ensures
            *config == self.config(),
    {
        &self.config
    }

    #[inline]
    pub fn get_points(&self) -> (points: &Vec<Point>)
        ensures
            points@ == self.points(),
    {
        &self.points
    }

    pub fn get_pheromones_per_point(&self) -> (levels: Vec<L>)
        ensures
            levels@ == self.pheromones(),
    {
        let n = self.pheromones.len();
        let mut levels: Vec<L> = Vec::new();
        let mut i: usize = 0;
        while i < n
            invariant
                i <= n,
                n == self.pheromones@.len(),
                levels@ == self.pheromones@.subrange(0, i as int),
            decreases n - i,
        {
            levels.push(self.pheromones[i]);
            assert(levels@ =~= self.pheromones@.subrange(0, i + 1));
            i += 1;
        }
        assert(levels@ =~= self.pheromones@);
        levels
    }

    /// `auxils` is an appraisal of the points for an ant that stands on
    /// point `here` and has been where `visited` says: one candidate for
    /// each point, under the point's id; the key of a point that the ant
    /// may go to is the arithmetic's key for the point's pheromone, food
    /// and distance from the ant, and the key of any other is the least.
    pub open spec fn appraised<N: Numerics<L>>(
        &self,
        visited: Seq<char>,
        here: int,
        numerics: &N,
        auxils: Seq<Auxil>,
    ) -> bool {
        &&& auxils.len() == self.points().len()
        &&& forall|i: int| 0 <= i < auxils.len() ==> (#[trigger] auxils[i]).id == self.points()[i].id
        &&& forall|i: int|
            0 <= i < auxils.len() ==> if viable(self.points(), visited, i) {
                scored(
                    numerics,
                    self.config().preference,
                    self.pheromones()[i],
                    self.points()[i].food,
                    length(
                        self.config().metric,
                        self.points()[here].x,
                        self.points()[here].y,
                        self.points()[i].x,
                        self.points()[i].y,
                    ),
                    (#[trigger] auxils[i]).ratio,
                )
            } else {
                auxils[i].ratio == MINUTE
            }
    }

    /// `result` is a selection among the best-ranked candidates.
    ///
    /// A position that is selected is one of the best that the ant has not
    /// seen; the only failure is to be stuck. Greedy selection takes the
    /// best candidate or is stuck. Random selection is not stuck where the
    /// ant has seen none of the best. Roulette selection takes a candidate
    /// on which the wheel stopped, turned over the keys of the best, and is
    /// stuck only after the wheel has stopped where there is no candidate
    /// for the ant. No selection finds a position where the ant has seen
    /// them all.
    pub open spec fn selected<N: Numerics<L>>(
        &self,
        auxils: Seq<Auxil>,
        order: Seq<usize>,
        visited: Seq<char>,
        numerics: &N,
        result: Result<char, SelectionError>,
    ) -> bool {
        let k = self.config().decision;
        &&& result is Err ==> result == Err::<char, SelectionError>(SelectionError::StuckSelection)
        &&& result matches Ok(id) ==> exists|pick: usize|
            pick < k && #[trigger] candidate_at(auxils, order, visited, k, pick) == Some(id)
        &&& self.config().select == Selection::Greedy ==> result == match candidate_at(
            auxils,
            order,
            visited,
            k,
            0,
        ) {
            Some(id) => Ok::<char, SelectionError>(id),
            None => Err(SelectionError::StuckSelection),
        }
        &&& self.config().select == Selection::Random && (forall|pick: usize|
            pick < k ==> #[trigger] candidate_at(auxils, order, visited, k, pick) is Some)
            ==> result is Ok
        &&& self.config().select == Selection::Roulette ==> (result matches Ok(id) ==> exists|
            keys: Vec<i64>,
            pick: usize,
        |
            {
                &&& keys@ == best_keys(auxils, order, k)
                &&& #[trigger] spun(numerics, &keys, pick)
                &&& candidate_at(auxils, order, visited, k, pick) == Some(id)
            })
        &&& self.config().select == Selection::Roulette && result is Err ==> exists|
            keys: Vec<i64>,
            pick: usize,
        |
            {
                &&& keys@ == best_keys(auxils, order, k)
                &&& #[trigger] spun(numerics, &keys, pick)
                &&& candidate_at(auxils, order, visited, k, pick) is None
            }
        &&& (forall|pick: usize|
            pick < k ==> #[trigger] candidate_at(auxils, order, visited, k, pick) is None)
            ==> result is Err
    }

    /// `result` is a next position for an ant that has been where
    /// `visited` says and stands on its last entry.
    ///
    /// Without food anywhere there is no next position, and none for an
    /// ant that stands on no point of the graph. For any other ant, the
    /// points are appraised and ranked, and the result is a selection among
    /// the best.
    pub open spec fn positioned<N: Numerics<L>>(
        &self,
        visited: Seq<char>,
        numerics: &N,
        result: Result<char, SelectionError>,
    ) -> bool {
        if !has_source(self.points()) {
            result == Err::<char, SelectionError>(
                SelectionError::GraphInvariantViolation(GraphInvariantViolation::NoFoodsource),
            )
        } else if !(visited.len() > 0 && has_point(self.points(), visited.last())) {
            result == Err::<char, SelectionError>(
                SelectionError::GraphInvariantViolation(GraphInvariantViolation::UnknownPoint),
            )
        } else {
            exists|here: int, auxils: Seq<Auxil>, order: Seq<usize>|
                {
                    &&& 0 <= here < self.points().len()
                    &&& self.points()[here].id == visited.last()
                    &&& #[trigger] self.appraised(visited, here, numerics, auxils)
                    &&& #[trigger] is_ranking(auxils, order)
                    &&& self.selected(auxils, order, visited, numerics, result)
                }
        }
    }

    /// `after` is this graph after one step of decay: the points are as
    /// they were; every level has decayed by the configured method, or is
    /// as it was where the settings name none.
    pub open spec fn disperses_to<N: Numerics<L>>(&self, after: &Self, numerics: &N) -> bool {
        &&& after.same_layout(self)
        &&& after.points() == self.points()
        &&& match self.config().dispersion {
            Some(method) => forall|i: int|
                0 <= i < self.pheromones().len() ==> decayed(
                    numerics,
                    method,
                    self.pheromones()[i],
                    #[trigger] after.pheromones()[i],
                    self.blank(),
                ),
            None => after.pheromones() == self.pheromones(),
        }
    }

    /// The other graph is this graph: the same layout, food and pheromone.
    pub open spec fn same_state(&self, other: &Self) -> bool {
        &&& self.same_layout(other)
        &&& self.points() == other.points()
        &&& self.pheromones() == other.pheromones()
    }

    /// Greedy selection: always the best candidate.
    #[inline]
    pub fn select_greedy(&self) -> (pick: usize)
        ensures
            pick == 0,
    {
        0
    }

    /// Random selection: any of the best candidates.
    pub fn select_randomly(&self) -> (pick: usize)
        requires
            self.wf(),
        ensures
            pick < self.config().decision,
    {
        random_below(self.config.decision)
    }

    /// Roulette selection: the wheel turns over the keys of the best
    /// candidates, and stops where the arithmetic lets it stop.
    pub fn select_roulette<N: Numerics<L>>(&self, keys: &Vec<i64>, numerics: &N) -> (pick: usize)
        ensures
            spun(numerics, keys, pick),
    {
        spin(numerics, keys)
    }

    /// Gives every point the key of its score, as seen by an ant that
    /// stands on point `here` and has been where `visited` says. A point
    /// that the ant may not go to gets the least key instead of its own.
    pub fn appraise<N: Numerics<L>>(&self, visited: &Vec<char>, here: usize, numerics: &N) -> (auxils:
        Vec<Auxil>)
        requires
            self.wf(),
            visited@.len() > 0,
            here < self.points().len(),
            self.points()[here as int].id == visited@.last(),
        ensures
            self.appraised(visited@, here as int, numerics, auxils@),
    {
        let position = self.points[here];
        let relaxed = position.food > 0;
        proof {
            if is_source(self.points@, visited@.last()) {
                let i = choose|i: int|
                    0 <= i < self.points@.len() && (#[trigger] self.points@[i]).id
                        == visited@.last() && self.points@[i].food > 0;
                assert(i == here);
            }
        }
        let n = self.points.len();
        let mut auxils: Vec<Auxil> = Vec::new();
        let mut i: usize = 0;
        while i < n
            invariant
                i <= n,
                n == self.points@.len(),
                n == self.pheromones@.len(),
                auxils@.len() == i,
                relaxed == is_source(self.points@, visited@.last()),
                forall|j: int| 0 <= j < i ==> (#[trigger] auxils@[j]).id == self.points@[j].id,
                position == self.points@[here as int],
                forall|j: int|
                    0 <= j < i ==> if viable(self.points@, visited@, j) {
                        scored(
                            numerics,
                            self.config.preference,
                            self.pheromones@[j],
                            self.points@[j].food,
                            length(
                                self.config.metric,
                                position.x,
                                position.y,
                                self.points@[j].x,
                                self.points@[j].y,
                            ),
                            (#[trigger] auxils@[j]).ratio,
                        )
                    } else {
                        auxils@[j].ratio == MINUTE
                    },
            decreases n - i,
        {
            let point = self.points[i];
            let ratio = if relaxed || !contains(visited, point.id) {
                let distance = self.config.metric.measure(position.x, position.y, point.x, point.y);
                score(numerics, self.config.preference, &self.pheromones[i], point.food, distance)
            } else {
                MINUTE
            };
            auxils.push(Auxil::new(point.id, ratio));
            i += 1;
        }
        auxils
    }

    /// Picks one of the best-ranked candidates by the configured way of
    /// selection. A draw that is out of range or falls on a point that the
    /// ant has seen is made again, up to the allowed number of draws; greedy
    /// selection, whose draw is always the same, is made once.
    pub fn select_position<N: Numerics<L>>(
        &self,
        auxils: &Vec<Auxil>,
        order: &Vec<usize>,
        visited: &Vec<char>,
        numerics: &N,
    ) -> (result: Result<char, SelectionError>)
        requires
            self.wf(),
            is_ranking(auxils@, order@),
            auxils@.len() == self.points().len(),
        ensures
            self.selected(auxils@, order@, visited@, numerics, result),
    {
        let k = self.config.decision;
        let select = self.config.select;
        let mut keys: Vec<i64> = Vec::new();
        if select == Selection::Roulette {
            let mut j: usize = 0;
            while j < k
                invariant
                    j <= k <= order@.len(),
                    order@.len() == auxils@.len(),
                    forall|i: int| 0 <= i < order@.len() ==> (#[trigger] order@[i]) < auxils@.len(),
                    keys@.len() == j,
                    forall|i: int| 0 <= i < j ==> keys@[i] == auxils@[order@[i] as int].ratio,
                decreases k - j,
            {
                keys.push(auxils[order[j]].ratio);
                j += 1;
            }
            assert(keys@ =~= best_keys(auxils@, order@, k));
        }
        let limit: usize = if select == Selection::Greedy {
            1
        } else {
            MAX_DRAWS
        };
        let mut draws: usize = 0;
        while draws < limit
            invariant
                draws <= limit,
                limit >= 1,
                self.wf(),
                k == self.config.decision,
                select == self.config.select,
                1 <= k <= order@.len(),
                order@.len() == auxils@.len(),
                forall|i: int| 0 <= i < order@.len() ==> (#[trigger] order@[i]) < auxils@.len(),
                draws > 0 && select == Selection::Greedy ==> candidate_at(
                    auxils@,
                    order@,
                    visited@,
                    k,
                    0,
                ) is None,
                draws > 0 && select == Selection::Random ==> exists|pick: usize|
                    pick < k && #[trigger] candidate_at(auxils@, order@, visited@, k, pick) is None,
                select == Selection::Roulette ==> keys@ == best_keys(auxils@, order@, k),
                draws > 0 && select == Selection::Roulette ==> exists|pick: usize| #[trigger]
                    spun(numerics, &keys, pick) && candidate_at(
                        auxils@,
                        order@,
                        visited@,
                        k,
                        pick,
                    ) is None,
            decreases limit - draws,
        {
            let pick = match select {
                Selection::Greedy => self.select_greedy(),
                Selection::Random => self.select_randomly(),
                Selection::Roulette => self.select_roulette(&keys, numerics),
            };
            match candidate(auxils, order, visited, k, pick) {
                Some(id) => {
                    return Ok(id);
                },
                None => {},
            }
            draws += 1;
        }
        Err(SelectionError::StuckSelection)
    }

    /// Where an ant goes next, given where it has been; its position is
    /// the last entry of `visited`.
    ///
    /// Every point is scored, or given the least key if the ant may not go
    /// there, the points are ranked, and one of the best is drawn.
    pub fn get_new_position<N: Numerics<L>>(&self, visited: &Vec<char>, numerics: &N) -> (result:
        Result<char, SelectionError>)
        requires
            self.wf(),
        ensures
            self.positioned(visited@, numerics, result),
            result matches Ok(id) ==> has_point(self.points(), id) && !visited@.contains(id),
    {
        if !self.has_foodsource() {
            return Err(
                SelectionError::GraphInvariantViolation(GraphInvariantViolation::NoFoodsource),
            );
        }
        if visited.len() == 0 {
            return Err(
                SelectionError::GraphInvariantViolation(GraphInvariantViolation::UnknownPoint),
            );
        }
        let here = match self.locate(visited[visited.len() - 1]) {
            Some(here) => here,
            None => {
                return Err(
                    SelectionError::GraphInvariantViolation(GraphInvariantViolation::UnknownPoint),
                );
            },
        };
        let auxils = self.appraise(visited, here, numerics);
        let order = rank(&auxils);
        let result = self.select_position(&auxils, &order, visited, numerics);
        proof {
            if let Ok(id) = result {
                let pick = choose|pick: usize|
                    pick < self.config().decision && #[trigger] candidate_at(
                        auxils@,
                        order@,
                        visited@,
                        self.config().decision,
                        pick,
                    ) == Some(id);
                let i = order@[pick as int] as int;
                assert(self.points@[i].id == id);
            }
        }
        result
    }
}

} // verus!
