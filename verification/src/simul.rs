use vstd::prelude::*;
use crate::ant::Ant;
use crate::anthill::{
    all_satiated, count_satiated, no_routes_total, none_satiated, none_satiated_counts_nothing,
    steps, total_route_length, total_routes_count, AntHill,
};
use crate::consts::{GRID_REACH, MAX_ANTS, MAX_BATCH, MAX_CYCLES, MAX_POINTS, MIN_POINTS};
use crate::numerics::{single_valued, Numerics};
use crate::random::seed_generator;
use crate::repeat::{batch_leaves_equal_records, same_record};
use crate::stats::{
    completed_count, is_record, never_falls, phase_total, total_stats, Stats, Totals,
};
use crate::tech::{
    Action, Config, ConfigValidationError, Dispersion, GraphInvariantViolation, Magnitude,
    PointInfo, Selection, SelectionError,
};
use crate::utils::Point;
use crate::world::{declared, has_point, has_source, with_food, World};

verus! {

/// No two points of the grid share an id.
pub open spec fn ids_distinct(grid: Seq<PointInfo>) -> bool {
    forall|i: int, j: int| 0 <= i < j < grid.len() ==> grid[i].id() != grid[j].id()
}

/// No two points of the grid share a position.
pub open spec fn positions_distinct(grid: Seq<PointInfo>) -> bool {
    forall|i: int, j: int| 0 <= i < j < grid.len() ==> grid[i].position() != grid[j].position()
}

/// A coordinate that the grid has room for.
pub open spec fn in_reach(c: i16) -> bool {
    -GRID_REACH <= c <= GRID_REACH
}

/// Every point lies inside the grid.
pub open spec fn inside_grid(grid: Seq<PointInfo>) -> bool {
    forall|i: int|
        0 <= i < grid.len() ==> in_reach((#[trigger] grid[i]).position().0) && in_reach(
            grid[i].position().1,
        )
}

/// The grid has a point with this id.
pub open spec fn grid_has(grid: Seq<PointInfo>, id: char) -> bool {
    exists|i: int| 0 <= i < grid.len() && (#[trigger] grid[i]).id() == id
}

/// Every scheduled action names a point of the grid.
pub open spec fn targets_known(grid: Seq<PointInfo>, actions: Seq<Action>) -> bool {
    forall|a: int| 0 <= a < actions.len() ==> grid_has(grid, (#[trigger] actions[a]).id())
}

/// The first point, the anthill, is declared without food and no action gives it any.
pub open spec fn anthill_stays_empty(grid: Seq<PointInfo>, actions: Seq<Action>) -> bool
    recommends
        grid.len() > 0,
{
    grid[0].food() == 0 && forall|a: int|
        0 <= a < actions.len() ==> (#[trigger] actions[a]).id() != grid[0].id()
}

/// The factor lies where the dispersion method needs it: zero or more for
/// linear decay, one or more for exponential decay, between zero and one for
/// relative decay, and left out when there is no dispersion.
pub open spec fn factor_suits(dispersion: Option<Dispersion>, factor: Magnitude) -> bool {
    match dispersion {
        Some(Dispersion::Linear) => factor.non_negative(),
        Some(Dispersion::Exponential) => factor.at_least_one(),
        Some(Dispersion::Relative) => factor.within_unit(),
        None => factor == Magnitude::Unset,
    }
}

/// What validation says of a configuration: the first rule that it breaks,
/// in the order in which the rules are listed here.
pub open spec fn verdict(
    config: Config,
    grid: Seq<PointInfo>,
    actions: Seq<Action>,
    batch: usize,
) -> Result<(), ConfigValidationError> {
    if !(MIN_POINTS <= grid.len() <= MAX_POINTS) {
        Err(ConfigValidationError::PointCount)
    } else if !ids_distinct(grid) {
        Err(ConfigValidationError::DuplicateIds)
    } else if !positions_distinct(grid) {
        Err(ConfigValidationError::DuplicatePositions)
    } else if !inside_grid(grid) {
        Err(ConfigValidationError::OutsideGrid)
    } else if !(1 <= config.decision <= grid.len()) {
        Err(ConfigValidationError::DecisionPoints)
    } else if !(1 <= config.ants <= MAX_ANTS) {
        Err(ConfigValidationError::AntCount)
    } else if !(1 <= config.cycles <= MAX_CYCLES) {
        Err(ConfigValidationError::CycleCount)
    } else if !config.pheromone.positive() {
        Err(ConfigValidationError::PheromoneStrength)
    } else if !factor_suits(config.dispersion, config.factor) {
        Err(ConfigValidationError::DispersionFactor)
    } else if !targets_known(grid, actions) {
        Err(ConfigValidationError::ActionTarget)
    } else if !anthill_stays_empty(grid, actions) {
        Err(ConfigValidationError::AnthillFood)
    } else if !(1 <= batch <= MAX_BATCH) {
        Err(ConfigValidationError::BatchSize)
    } else {
        Ok(())
    }
}

pub fn has_unique_ids(grid: &Vec<PointInfo>) -> (unique: bool)
    ensures
        unique == ids_distinct(grid@),
{
    let n = grid.len();
    let mut j: usize = 0;
    while j < n
        invariant
            j <= n,
            n == grid@.len(),
            forall|a: int, b: int| 0 <= a < b < j ==> grid@[a].id() != grid@[b].id(),
        decreases n - j,
    {
        let id = grid[j].get_id();
        let mut i: usize = 0;
        while i < j
            invariant
                i <= j < n,
                n == grid@.len(),
                id == grid@[j as int].id(),
                forall|a: int| 0 <= a < i ==> grid@[a].id() != id,
            decreases j - i,
        {
            if grid[i].get_id() == id {
                return false;
            }
            i += 1;
        }
        j += 1;
    }
    true
}

pub fn has_unique_positions(grid: &Vec<PointInfo>) -> (unique: bool)
    ensures
        unique == positions_distinct(grid@),
{
    let n = grid.len();
    let mut j: usize = 0;
    while j < n
        invariant
            j <= n,
            n == grid@.len(),
            forall|a: int, b: int| 0 <= a < b < j ==> grid@[a].position() != grid@[b].position(),
        decreases n - j,
    {
        let (x, y) = grid[j].get_position();
        let mut i: usize = 0;
        while i < j
            invariant
                i <= j < n,
                n == grid@.len(),
                (x, y) == grid@[j as int].position(),
                forall|a: int| 0 <= a < i ==> grid@[a].position() != (x, y),
            decreases j - i,
        {
            let (u, v) = grid[i].get_position();
            if u == x && v == y {
                return false;
            }
            i += 1;
        }
        j += 1;
    }
    true
}

pub fn lies_inside_grid(grid: &Vec<PointInfo>) -> (inside: bool)
    ensures
        inside == inside_grid(grid@),
{
    let n = grid.len();
    let mut i: usize = 0;
    while i < n
        invariant
            i <= n,
            n == grid@.len(),
            forall|a: int|
                0 <= a < i ==> in_reach((#[trigger] grid@[a]).position().0) && in_reach(
                    grid@[a].position().1,
                ),
        decreases n - i,
    {
        let (x, y) = grid[i].get_position();
        if x < -GRID_REACH || x > GRID_REACH || y < -GRID_REACH || y > GRID_REACH {
            return false;
        }
        i += 1;
    }
    true
}

pub fn grid_contains(grid: &Vec<PointInfo>, id: char) -> (found: bool)
    ensures
        found == grid_has(grid@, id),
{
    let n = grid.len();
    let mut i: usize = 0;
    while i < n
        invariant
            i <= n,
            n == grid@.len(),
            forall|a: int| 0 <= a < i ==> (#[trigger] grid@[a]).id() != id,
        decreases n - i,
    {
        if grid[i].get_id() == id {
            return true;
        }
        i += 1;
    }
    false
}

pub fn has_known_targets(grid: &Vec<PointInfo>, actions: &Vec<Action>) -> (known: bool)
    ensures
        known == targets_known(grid@, actions@),
{
    let n = actions.len();
    let mut a: usize = 0;
    while a < n
        invariant
            a <= n,
            n == actions@.len(),
            forall|b: int| 0 <= b < a ==> grid_has(grid@, (#[trigger] actions@[b]).id()),
        decreases n - a,
    {
        let (_, id, _) = actions[a].get_values();
        if !grid_contains(grid, id) {
            return false;
        }
        a += 1;
    }
    true
}

pub fn keeps_anthill_empty(grid: &Vec<PointInfo>, actions: &Vec<Action>) -> (empty: bool)
    requires
        grid@.len() > 0,
    ensures
        empty == anthill_stays_empty(grid@, actions@),
{
    if grid[0].has_food() {
        return false;
    }
    let anthill = grid[0].get_id();
    let n = actions.len();
    let mut a: usize = 0;
    while a < n
        invariant
            a <= n,
            n == actions@.len(),
            grid@.len() > 0,
            anthill == grid@[0].id(),
            forall|b: int| 0 <= b < a ==> (#[trigger] actions@[b]).id() != anthill,
        decreases n - a,
    {
        let (_, id, _) = actions[a].get_values();
        if id == anthill {
            return false;
        }
        a += 1;
    }
    true
}

pub fn suits(dispersion: Option<Dispersion>, factor: Magnitude) -> (fits: bool)
    ensures
        fits == factor_suits(dispersion, factor),
{
    match dispersion {
        Some(Dispersion::Linear) => match factor {
            Magnitude::Zero | Magnitude::Fraction | Magnitude::One | Magnitude::Above => true,
            _ => false,
        },
        Some(Dispersion::Exponential) => match factor {
            Magnitude::One | Magnitude::Above => true,
            _ => false,
        },
        Some(Dispersion::Relative) => match factor {
            Magnitude::Zero | Magnitude::Fraction | Magnitude::One => true,
            _ => false,
        },
        None => match factor {
            Magnitude::Unset => true,
            _ => false,
        },
    }
}

/// Holds a configuration against every rule, and names the first one broken.
pub fn validate(config: &Config, grid: &Vec<PointInfo>, actions: &Vec<Action>, batch: usize) -> (result:
    Result<(), ConfigValidationError>)
    ensures
        result == verdict(*config, grid@, actions@, batch),
{
    let points = grid.len();
    if points < MIN_POINTS || points > MAX_POINTS {
        return Err(ConfigValidationError::PointCount);
    }
    if !has_unique_ids(grid) {
        return Err(ConfigValidationError::DuplicateIds);
    }
    if !has_unique_positions(grid) {
        return Err(ConfigValidationError::DuplicatePositions);
    }
    if !lies_inside_grid(grid) {
        return Err(ConfigValidationError::OutsideGrid);
    }
    if config.decision < 1 || config.decision > points {
        return Err(ConfigValidationError::DecisionPoints);
    }
    if config.ants < 1 || config.ants > MAX_ANTS {
        return Err(ConfigValidationError::AntCount);
    }
    if config.cycles < 1 || config.cycles > MAX_CYCLES {
        return Err(ConfigValidationError::CycleCount);
    }
    if !config.pheromone.is_positive() {
        return Err(ConfigValidationError::PheromoneStrength);
    }
    if !suits(config.dispersion, config.factor) {
        return Err(ConfigValidationError::DispersionFactor);
    }
    if !has_known_targets(grid, actions) {
        return Err(ConfigValidationError::ActionTarget);
    }
    if !keeps_anthill_empty(grid, actions) {
        return Err(ConfigValidationError::AnthillFood);
    }
    if batch < 1 || batch > MAX_BATCH {
        return Err(ConfigValidationError::BatchSize);
    }
    Ok(())
}

/// Every scheduled action names a point of the graph.
pub open spec fn targets_exist<L: Copy>(world: &World<L>, actions: Seq<Action>) -> bool {
    forall|a: int| 0 <= a < actions.len() ==> has_point(world.points(), (#[trigger] actions[a]).id())
}

/// The points after the changes of food that the schedule holds for the
/// end of cycle `phase`, applied in the order of the schedule.
pub open spec fn scheduled(points: Seq<Point>, actions: Seq<Action>, phase: usize) -> Seq<Point>
    decreases actions.len(),
{
    if actions.len() == 0 {
        points
    } else {
        let earlier = scheduled(points, actions.drop_last(), phase);
        if actions.last().cycle() == phase {
            with_food(earlier, actions.last().id(), actions.last().amount())
        } else {
            earlier
        }
    }
}

/// A graph of the same layout has the same ids.
proof fn layout_keeps_targets<L: Copy>(before: &World<L>, after: &World<L>, actions: Seq<Action>)
    requires
        after.same_layout(before),
        targets_exist(before, actions),
    ensures
        targets_exist(after, actions),
{
    assert forall|a: int| 0 <= a < actions.len() implies has_point(
        after.points(),
        (#[trigger] actions[a]).id(),
    ) by {
        let id = actions[a].id();
        let i = choose|i: int|
            0 <= i < before.points().len() && (#[trigger] before.points()[i]).id == id;
        assert(after.points()[i].id == id);
    }
}

/// The run of a simulation: a graph, a colony, the settings and the
/// scheduled changes of food, a record for every trial that has been run,
/// and how far the trial under way has come.
pub struct Simulator<L> {
    batch_size: usize,
    config: Config,
    actions: Vec<Action>,
    ant_hill: AntHill,
    world: World<L>,
    stats: Vec<Stats<L>>,
    phase: usize,
    ants_per_phase: Vec<usize>,
}

impl<L: Copy> Simulator<L> {
    /// How many trials one call of `simulate` runs.
    pub closed spec fn batch_size(&self) -> usize {
        self.batch_size
    }

    pub closed spec fn config(&self) -> Config {
        self.config
    }

    /// The scheduled changes of food, in the order in which they are applied.
    pub closed spec fn actions(&self) -> Seq<Action> {
        self.actions@
    }

    pub closed spec fn ant_hill(&self) -> AntHill {
        self.ant_hill
    }

    pub closed spec fn world(&self) -> World<L> {
        self.world
    }

    /// The records of the trials run so far, oldest first.
    pub closed spec fn stats(&self) -> Seq<Stats<L>> {
        self.stats@
    }

    /// How many cycles of the trial under way have been run.
    pub closed spec fn phase(&self) -> usize {
        self.phase
    }

    /// How many ants were fed at the end of each of those cycles.
    pub closed spec fn counts(&self) -> Seq<usize> {
        self.ants_per_phase@
    }

    /// What holds of every simulator.
    ///
    /// Graph and colony are sound, belong together and stand under the
    /// simulator's settings; the numbers of ants, cycles and trials are in
    /// range; every scheduled action names a point; every record is one
    /// that a trial can leave. Of the trial under way, there is a count of
    /// fed ants for each cycle run: none above the number of ants, the
    /// last one the number of ants that are fed now, and none below the
    /// one before where ants do not return. Where ants return, no ant is
    /// fed and every count is nothing. No ant has more routes to its name
    /// than cycles have been run. Before the first cycle, graph and colony
    /// stand as they were built.
    pub open spec fn wf(&self) -> bool {
        &&& self.world().wf()
        &&& self.world().config() == self.config()
        &&& self.ant_hill().wf()
        &&& self.ant_hill().within(&self.world())
        &&& self.ant_hill().ants().len() == self.config().ants
        &&& 1 <= self.config().ants <= MAX_ANTS
        &&& 1 <= self.config().cycles <= MAX_CYCLES
        &&& 1 <= self.batch_size() <= MAX_BATCH
        &&& targets_exist(&self.world(), self.actions())
        &&& forall|t: int|
            0 <= t < self.stats().len() ==> is_record(
                &#[trigger] self.stats()[t],
                self.config(),
                self.world().points().len(),
            )
        &&& self.phase() <= self.config().cycles
        &&& self.counts().len() == self.phase()
        &&& forall|p: int| 0 <= p < self.counts().len() ==> (#[trigger] self.counts()[p]) <= self.config().ants
        &&& !self.config().returns ==> never_falls(self.counts())
        &&& self.phase() > 0 ==> self.counts().last() == count_satiated(self.ant_hill().ants())
        &&& self.ant_hill().routes_within(self.phase() as int)
        &&& !self.config().returns ==> self.ant_hill().routes_within(0)
        &&& self.config().returns ==> none_satiated(self.ant_hill().ants())
        &&& self.config().returns ==> forall|p: int|
            0 <= p < self.counts().len() ==> (#[trigger] self.counts()[p]) == 0
        &&& self.phase() == 0 ==> self.world().pristine() && self.ant_hill().fresh()
    }

    /// The same settings, schedule and layout of the graph.
    pub open spec fn same_setup(&self, other: &Self) -> bool {
        &&& self.config() == other.config()
        &&& self.batch_size() == other.batch_size()
        &&& self.actions() == other.actions()
        &&& self.world().same_layout(&other.world())
        &&& self.ant_hill().same_ants(&other.ant_hill())
    }

    /// The records of `earlier` are the first records of this simulator.
    pub open spec fn keeps_records_of(&self, earlier: &Self) -> bool {
        &&& earlier.stats().len() <= self.stats().len()
        &&& forall|t: int| 0 <= t < earlier.stats().len() ==> self.stats()[t] == earlier.stats()[t]
    }

    /// What a cycle of a trial under way does to a simulator.
    ///
    /// The colony acts: `graphs` and `ants` are as `steps` says, from the
    /// graph as it was. Where that fails, the cycle fails in the same way,
    /// and the trial is given up. Else the pheromone of the graph that the
    /// last ant has left decays, which gives `decayed`; the changes of
    /// food that are scheduled for the cycle are applied; and the fed ants
    /// are counted. Settings, schedule and records stay as they are.
    pub open spec fn cycled<N: Numerics<L>>(
        before: &Self,
        after: &Self,
        numerics: &N,
        result: Result<(), SelectionError>,
    ) -> bool {
        &&& after.same_setup(before)
        &&& after.stats() == before.stats()
        &&& exists|graphs: Seq<World<L>>, ants: Seq<Ant>|
            {
                &&& graphs.len() > 0
                &&& graphs[0] == before.world()
                &&& #[trigger] steps(before.ant_hill().ants(), ants, graphs, numerics, result)
                &&& match result {
                    Ok(_) => exists|decayed: World<L>|
                        {
                            &&& #[trigger] graphs.last().disperses_to(&decayed, numerics)
                            &&& after.ant_hill().ants() == ants
                            &&& after.world().same_layout(&decayed)
                            &&& after.world().pheromones() == decayed.pheromones()
                            &&& after.world().points() == scheduled(
                                decayed.points(),
                                before.actions(),
                                before.phase(),
                            )
                            &&& after.phase() == before.phase() + 1
                            &&& after.counts() == before.counts().push(
                                count_satiated(ants) as usize,
                            )
                        },
                    Err(_) => {
                        &&& after.phase() == 0
                        &&& after.counts().len() == 0
                        &&& after.world().pristine()
                        &&& after.ant_hill().fresh()
                    },
                }
            }
    }

    /// What the end of a trial does to a simulator: the record of the
    /// trial joins the records, with the counts of fed ants of its cycles,
    /// the pheromone as it stands, and of the ants the sum of the route
    /// lengths, the sum of the routes to their names, how many they are and
    /// whether all are fed. Graph and colony stand as they were built, and
    /// no cycle of a next trial is counted yet.
    pub open spec fn finished(before: &Self, after: &Self) -> bool {
        let record = after.stats().last();
        let ants = before.ant_hill().ants();
        &&& after.same_setup(before)
        &&& after.keeps_records_of(before)
        &&& after.stats().len() == before.stats().len() + 1
        &&& record.ants_per_phase@ == before.counts()
        &&& record.pheromone_strengths@ == before.world().pheromones()
        &&& record.completed == all_satiated(ants)
        &&& record.average_route_len.total == total_route_length(ants)
        &&& record.average_route_len.count == ants.len()
        &&& record.average_returns.total == total_routes_count(ants)
        &&& record.average_returns.count == ants.len()
        &&& after.phase() == 0
        &&& after.counts().len() == 0
        &&& after.world().pristine()
        &&& after.ant_hill().fresh()
    }

    /// What one step of a batch does to a simulator: a cycle of the trial
    /// under way, or the end of the trial when all its cycles are run.
    pub open spec fn advanced<N: Numerics<L>>(
        before: &Self,
        after: &Self,
        numerics: &N,
        result: Result<(), SelectionError>,
    ) -> bool {
        if before.phase() < before.config().cycles {
            Self::cycled(before, after, numerics, result)
        } else {
            result is Ok && Self::finished(before, after)
        }
    }

    /// What a batch does to a simulator, step by step: `trace` holds the
    /// simulator before the first step and after each step. Every step but
    /// the last succeeds, and the batch ends as the last step does: a
    /// batch that fails has made a step, and fails as that step has.
    pub open spec fn traced<N: Numerics<L>>(
        trace: Seq<Self>,
        numerics: &N,
        result: Result<(), SelectionError>,
    ) -> bool {
        &&& trace.len() > 0
        &&& result is Err ==> trace.len() >= 2
        &&& forall|k: int| 0 <= k < trace.len() - 1 ==> #[trigger] Self::step_at(trace, k, numerics, result)
    }

    /// Step `k` of a batch is a step, and succeeds unless it is the last.
    pub open spec fn step_at<N: Numerics<L>>(
        trace: Seq<Self>,
        k: int,
        numerics: &N,
        result: Result<(), SelectionError>,
    ) -> bool {
        Self::advanced(
            &trace[k],
            &trace[k + 1],
            numerics,
            if k == trace.len() - 2 {
                result
            } else {
                Ok(())
            },
        )
    }

    /// The simulator as a batch finds it, once a trial under way is given
    /// up: as it was, if no trial was under way; in any case between
    /// trials, with graph and colony as they were built and the records
    /// as they were.
    pub open spec fn opened(before: &Self, after: &Self) -> bool {
        &&& before.phase() == 0 ==> *after == *before
        &&& after.phase() == 0
        &&& after.counts().len() == 0
        &&& after.same_setup(before)
        &&& after.stats() == before.stats()
        &&& after.world().pristine()
        &&& after.ant_hill().fresh()
    }

    /// A trace of steps that succeed, with one more step behind it, is a
    /// trace that ends as that step does.
    proof fn trace_grows<N: Numerics<L>>(
        trace: Seq<Self>,
        next: Self,
        numerics: &N,
        result: Result<(), SelectionError>,
    )
        requires
            Self::traced(trace, numerics, Ok(())),
            Self::advanced(&trace.last(), &next, numerics, result),
        ensures
            Self::traced(trace.push(next), numerics, result),
    {
        let longer = trace.push(next);
        assert forall|k: int| 0 <= k < longer.len() - 1 implies #[trigger] Self::step_at(
            longer,
            k,
            numerics,
            result,
        ) by {
            if k < trace.len() - 1 {
                assert(Self::step_at(trace, k, numerics, Ok(())));
                assert(longer[k] == trace[k] && longer[k + 1] == trace[k + 1]);
            } else {
                assert(longer[k] == trace.last() && longer[k + 1] == next);
            }
        }
    }

    /// Builds a simulator from a configuration that passes validation, and
    /// says which rule was broken where it does not. With a seed in the
    /// settings, the random generator is restarted from it.
    pub fn new(
        config: Config,
        grid: Vec<PointInfo>,
        actions: Vec<Action>,
        batch: usize,
        blank: L,
    ) -> (result: Result<Self, ConfigValidationError>)
        ensures
            match result {
                Ok(simulator) => {
                    &&& verdict(config, grid@, actions@, batch) is Ok
                    &&& simulator.wf()
                    &&& simulator.config() == config
                    &&& simulator.batch_size() == batch
                    &&& simulator.actions() == actions@
                    &&& simulator.world().points() == declared(grid@)
                    &&& simulator.world().blank() == blank
                    &&& simulator.stats().len() == 0
                    &&& simulator.phase() == 0
                },
                Err(e) => verdict(config, grid@, actions@, batch) == Err::<
                    (),
                    ConfigValidationError,
                >(e),
            },
    {
        match validate(&config, &grid, &actions, batch) {
            Err(e) => {
                return Err(e);
            },
            Ok(()) => {},
        }
        let ghost declaration = grid@;
        // A grid that passes validation declares a graph.
        let world = match World::new(grid, &config, blank) {
            Some(world) => world,
            None => {
                return Err(ConfigValidationError::PointCount);
            },
        };
        let ant_hill = AntHill::new(&world, config.ants);
        if let Some(seed) = config.seed {
            seed_generator(seed);
        }
        proof {
            assert forall|a: int| 0 <= a < actions@.len() implies has_point(
                world.points(),
                (#[trigger] actions@[a]).id(),
            ) by {
                let id = actions@[a].id();
                assert(grid_has(declaration, id));
                let i = choose|i: int|
                    0 <= i < declaration.len() && (#[trigger] declaration[i]).id() == id;
                assert(world.points()[i].id == id);
            }
            assert forall|i: int| 0 <= i < ant_hill.ants().len() implies (
            #[trigger] ant_hill.ants()[i]).routes_count() <= 0 by {
                assert(ant_hill.ants()[i].fresh());
            }
        }
        Ok(
            Simulator {
                batch_size: batch,
                config,
                actions,
                ant_hill,
                world,
                stats: Vec::new(),
                phase: 0,
                ants_per_phase: Vec::new(),
            },
        )
    }

    /// Records that were sound stay sound while the settings and the
    /// number of points stay.
    proof fn records_carry_over(&self, before: &Self)
        requires
            before.wf(),
            self.config() == before.config(),
            self.world().points().len() == before.world().points().len(),
            forall|t: int| 0 <= t < self.stats().len() ==> before.stats().contains(self.stats()[t]),
        ensures
            forall|t: int|
                0 <= t < self.stats().len() ==> is_record(
                    &#[trigger] self.stats()[t],
                    self.config(),
                    self.world().points().len(),
                ),
    {
        assert forall|t: int| 0 <= t < self.stats().len() implies is_record(
            &#[trigger] self.stats()[t],
            self.config(),
            self.world().points().len(),
        ) by {
            let u = choose|u: int| 0 <= u < before.stats().len() && before.stats()[u] == self.stats()[t];
            assert(is_record(&before.stats()[u], before.config(), before.world().points().len()));
        }
    }

    /// Applies the changes of food that are scheduled for the end of cycle
    /// `phase`, in the order of the schedule.
    fn execute_actions(&mut self, phase: usize)
        requires
            old(self).world().wf(),
            targets_exist(&old(self).world(), old(self).actions()),
        ensures
            final(self).world().wf(),
            final(self).world().same_layout(&old(self).world()),
            final(self).world().pheromones() == old(self).world().pheromones(),
            final(self).world().points() == scheduled(
                old(self).world().points(),
                old(self).actions(),
                phase,
            ),
            final(self).ant_hill() == old(self).ant_hill(),
            final(self).config() == old(self).config(),
            final(self).batch_size() == old(self).batch_size(),
            final(self).actions() == old(self).actions(),
            final(self).stats() == old(self).stats(),
            final(self).phase() == old(self).phase(),
            final(self).counts() == old(self).counts(),
    {
        let n = self.actions.len();
        assert(self.actions@.subrange(0, 0) =~= Seq::<Action>::empty());
        let mut a: usize = 0;
        while a < n
            invariant
                a <= n,
                n == self.actions@.len(),
                self.world.wf(),
                self.world.same_layout(&old(self).world),
                self.world.pheromones() == old(self).world.pheromones(),
                targets_exist(&old(self).world, self.actions@),
                self.ant_hill == old(self).ant_hill,
                self.config == old(self).config,
                self.batch_size == old(self).batch_size,
                self.actions@ == old(self).actions@,
                self.stats@ == old(self).stats@,
                self.phase == old(self).phase,
                self.ants_per_phase@ == old(self).ants_per_phase@,
                self.world.points() == scheduled(
                    old(self).world.points(),
                    self.actions@.subrange(0, a as int),
                    phase,
                ),
            decreases n - a,
        {
            assert(self.actions@.subrange(0, a + 1).drop_last() =~= self.actions@.subrange(
                0,
                a as int,
            ));
            let (cycle, id, amount) = self.actions[a].get_values();
            if cycle == phase {
                proof {
                    layout_keeps_targets(&old(self).world, &self.world, self.actions@);
                    assert(has_point(self.world.points(), self.actions@[a as int].id()));
                }
                let _ = self.world.set_foodsource(id, amount);
            }
            a += 1;
        }
        assert(self.actions@.subrange(0, n as int) =~= self.actions@);
    }

    /// Gives up the trial under way: graph and colony are put back as they
    /// were built, and the counts of the trial are dropped.
    fn abandon(&mut self)
        requires
            old(self).wf(),
        ensures
            final(self).wf(),
            final(self).phase() == 0,
            final(self).same_setup(old(self)),
            final(self).stats() == old(self).stats(),
            final(self).world().pristine(),
            final(self).ant_hill().fresh(),
            old(self).phase() == 0 ==> *final(self) == *old(self),
    {
        if self.phase == 0 {
            return ;
        }
        self.reset();
        self.phase = 0;
        self.ants_per_phase = Vec::new();
    }

    /// Puts graph and colony back as they were built.
    fn reset(&mut self)
        requires
            old(self).world().wf(),
            old(self).ant_hill().wf(),
            old(self).ant_hill().within(&old(self).world()),
            targets_exist(&old(self).world(), old(self).actions()),
        ensures
            final(self).world().wf(),
            final(self).world().pristine(),
            final(self).ant_hill().wf(),
            final(self).ant_hill().fresh(),
            final(self).ant_hill().within(&final(self).world()),
            final(self).ant_hill().routes_within(0),
            targets_exist(&final(self).world(), final(self).actions()),
            final(self).same_setup(old(self)),
            final(self).stats() == old(self).stats(),
            final(self).phase() == old(self).phase(),
            final(self).counts() == old(self).counts(),
    {
        self.ant_hill.reset();
        self.world.reset();
        proof {
            layout_keeps_targets(&old(self).world, &self.world, self.actions@);
            assert(self.world.points()[0].id == self.world.anthill());
            assert forall|i: int| 0 <= i < self.ant_hill.ants().len() implies (
            #[trigger] self.ant_hill.ants()[i]).within(&self.world) by {
                assert(self.ant_hill.ants()[i].fresh());
                assert(old(self).ant_hill.ants()[i].within(&old(self).world));
            }
            assert forall|i: int| 0 <= i < self.ant_hill.ants().len() implies (
            #[trigger] self.ant_hill.ants()[i]).routes_count() <= 0 by {
                assert(self.ant_hill.ants()[i].fresh());
            }
        }
    }

    /// Runs the next cycle of the trial under way: the colony acts, the
    /// pheromone decays if the settings say how, the changes of food that
    /// are scheduled for the cycle are applied, and the fed ants are
    /// counted. A trial that has run all its cycles stays as it is.
    ///
    /// Where an ant cannot be given a position, the trial is given up:
    /// graph and colony are put back as they were built.
    pub fn run_cycle<N: Numerics<L>>(&mut self, numerics: &N) -> (result: Result<
        (),
        SelectionError,
    >)
        requires
            old(self).wf(),
        ensures
            final(self).wf(),
            final(self).same_setup(old(self)),
            final(self).stats() == old(self).stats(),
            old(self).phase() == old(self).config().cycles ==> {
                &&& result is Ok
                &&& final(self).phase() == old(self).phase()
                &&& final(self).counts() == old(self).counts()
                &&& final(self).world() == old(self).world()
                &&& final(self).ant_hill() == old(self).ant_hill()
            },
            old(self).phase() < old(self).config().cycles ==> Self::cycled(
                old(self),
                final(self),
                numerics,
                result,
            ),
            old(self).phase() < old(self).config().cycles && result is Ok ==> {
                &&& final(self).phase() == old(self).phase() + 1
                &&& final(self).counts() == old(self).counts().push(
                    count_satiated(final(self).ant_hill().ants()) as usize,
                )
            },
            result matches Err(e) ==> {
                &&& final(self).phase() == 0
                &&& e != SelectionError::GraphInvariantViolation(
                    GraphInvariantViolation::UnknownPoint,
                )
            },
            old(self).phase() == 0 && !has_source(old(self).world().points()) ==> (
            result matches Err(e) && e == SelectionError::GraphInvariantViolation(
                GraphInvariantViolation::NoFoodsource,
            )),
    {
        let phase = self.phase;
        if phase >= self.config.cycles {
            return Ok(());
        }
        let ghost hill_before = self.ant_hill;
        let ghost counts_before = self.ants_per_phase@;
        proof {
            assert(self.ant_hill.routes_within(usize::MAX - 1)) by {
                assert forall|i: int| 0 <= i < self.ant_hill.ants().len() implies (
                #[trigger] self.ant_hill.ants()[i]).routes_count() <= usize::MAX - 1 by {}
            }
            if phase == 0 {
                assert(self.ant_hill.ants()[0].fresh());
            }
        }
        let ghost world_before = self.world;
        let hill = &mut self.ant_hill;
        let world = &mut self.world;
        let outcome = hill.action(world, numerics);
        let ghost graphs = choose|graphs: Seq<World<L>>|
            {
                &&& graphs.len() > 0
                &&& graphs[0] == world_before
                &&& graphs.last() == *world
                &&& #[trigger] steps(hill_before.ants(), hill.ants(), graphs, numerics, outcome)
            };
        let ghost ants = self.ant_hill.ants();
        match outcome {
            Err(e) => {
                proof {
                    layout_keeps_targets(&old(self).world, &self.world, self.actions@);
                }
                self.reset();
                self.phase = 0;
                self.ants_per_phase = Vec::new();
                proof {
                    assert(steps(old(self).ant_hill().ants(), ants, graphs, numerics, outcome));
                    assert(Self::cycled(old(self), self, numerics, outcome));
                    assert forall|t: int| 0 <= t < self.stats().len() implies old(
                        self,
                    ).stats().contains(self.stats()[t]) by {
                        assert(old(self).stats()[t] == self.stats()[t]);
                    }
                    self.records_carry_over(old(self));
                }
                return Err(e);
            },
            Ok(()) => {},
        }
        proof {
            assert(self.ant_hill.routes_within(phase + 1)) by {
                assert forall|i: int| 0 <= i < self.ant_hill.ants().len() implies (
                #[trigger] self.ant_hill.ants()[i]).routes_count() <= phase + 1 by {
                    assert(hill_before.ants()[i].routes_count() <= phase);
                }
            }
            if !self.config.returns {
                assert forall|i: int| 0 <= i < self.ant_hill.ants().len() implies (
                #[trigger] self.ant_hill.ants()[i]).routes_count() <= 0 by {
                    assert(hill_before.ants()[i].routes_count() <= 0);
                }
            }
        }
        let ghost acted = self.world;
        self.world.disperse_pheromons(numerics);
        let ghost decayed = self.world;
        proof {
            layout_keeps_targets(&old(self).world, &self.world, self.actions@);
        }
        self.execute_actions(phase);
        proof {
            self.ant_hill.layout_keeps_ants(&acted, &self.world);
            layout_keeps_targets(&old(self).world, &self.world, self.actions@);
        }
        let fed = self.ant_hill.get_satiated_ants_count();
        proof {
            if self.config.returns {
                none_satiated_counts_nothing(self.ant_hill.ants());
            }
        }
        self.ants_per_phase.push(fed);
        self.phase = phase + 1;
        proof {
            if self.config.returns {
                assert forall|p: int| 0 <= p < self.ants_per_phase@.len() implies (
                #[trigger] self.ants_per_phase@[p]) == 0 by {
                    if p < phase {
                        assert(self.ants_per_phase@[p] == counts_before[p]);
                    }
                }
            }
            if !self.config.returns {
                assert forall|p: int, q: int| 0 <= p <= q < self.ants_per_phase@.len() implies
                    self.ants_per_phase@[p] <= self.ants_per_phase@[q] by {
                    if q == phase && p < phase {
                        assert(counts_before[p] <= counts_before[phase - 1]);
                    }
                }
            }
            assert forall|t: int| 0 <= t < self.stats().len() implies old(self).stats().contains(
                self.stats()[t],
            ) by {
                assert(old(self).stats()[t] == self.stats()[t]);
            }
            self.records_carry_over(old(self));
            assert(steps(old(self).ant_hill().ants(), ants, graphs, numerics, outcome));
            assert(graphs.last().disperses_to(&decayed, numerics));
            assert(Self::cycled(old(self), self, numerics, outcome));
        }
        outcome
    }

    /// Ends a trial that has run all its cycles: its record is kept, and
    /// graph and colony are put back as they were built, ready for the
    /// next trial. A trial that has cycles left stays as it is, and the
    /// answer is `false`.
    pub fn finish_trial(&mut self) -> (recorded: bool)
        requires
            old(self).wf(),
        ensures
            final(self).wf(),
            final(self).same_setup(old(self)),
            final(self).keeps_records_of(old(self)),
            recorded == (old(self).phase() == old(self).config().cycles),
            recorded ==> Self::finished(old(self), final(self)),
            !recorded ==> {
                &&& final(self).phase() == old(self).phase()
                &&& final(self).counts() == old(self).counts()
                &&& final(self).stats() == old(self).stats()
                &&& final(self).world() == old(self).world()
                &&& final(self).ant_hill() == old(self).ant_hill()
            },
    {
        if self.phase != self.config.cycles {
            return false;
        }
        let completed = self.ant_hill.has_all_ants_satiated();
        let pheromone_strengths = self.world.get_pheromones_per_point();
        let average_route_len = self.ant_hill.get_average_route_length();
        let average_returns = self.ant_hill.get_average_routes_count();
        let mut ants_per_phase: Vec<usize> = Vec::new();
        core::mem::swap(&mut ants_per_phase, &mut self.ants_per_phase);
        proof {
            if !self.config.returns {
                assert forall|i: int| 0 <= i < self.ant_hill.ants().len() implies (
                #[trigger] self.ant_hill.ants()[i]).routes_count() == 0 by {}
                no_routes_total(self.ant_hill.ants());
            }
        }
        let record = Stats {
            completed,
            pheromone_strengths,
            average_route_len,
            ants_per_phase,
            average_returns,
        };
        assert(is_record(&record, self.config, self.world.points().len()));
        self.stats.push(record);
        self.reset();
        self.phase = 0;
        proof {
            assert forall|t: int| 0 <= t < self.stats().len() implies is_record(
                &#[trigger] self.stats()[t],
                self.config(),
                self.world().points().len(),
            ) by {
                if t < old(self).stats().len() {
                    assert(self.stats()[t] == old(self).stats()[t]);
                    assert(is_record(
                        &old(self).stats()[t],
                        old(self).config(),
                        old(self).world().points().len(),
                    ));
                } else {
                    assert(self.stats()[t] == record);
                }
            }
        }
        true
    }

    /// Runs the batch: as many trials as the batch size says, each from the
    /// graph and the colony as they were built, and keeps a record of each.
    /// A trial that was under way is given up first.
    ///
    /// A trial in which an ant cannot be given a position ends the batch:
    /// the trial leaves no record, the records before it stay, and graph
    /// and colony are put back as they were built.
    pub fn simulate<N: Numerics<L>>(&mut self, numerics: &N) -> (result: Result<(), SelectionError>)
        requires
            old(self).wf(),
        ensures
            final(self).wf(),
            final(self).phase() == 0,
            final(self).same_setup(old(self)),
            final(self).keeps_records_of(old(self)),
            result is Ok ==> final(self).stats().len() == old(self).stats().len() + old(
                self,
            ).batch_size(),
            result is Err ==> final(self).stats().len() < old(self).stats().len() + old(
                self,
            ).batch_size(),
            !old(self).config().returns ==> forall|t: int|
                0 <= t < final(self).stats().len() ==> never_falls(
                    (#[trigger] final(self).stats()[t]).ants_per_phase@,
                ),
            old(self).config().returns ==> forall|t: int|
                0 <= t < final(self).stats().len() ==> {
                    &&& !(#[trigger] final(self).stats()[t]).completed
                    &&& forall|p: int|
                        0 <= p < final(self).stats()[t].ants_per_phase@.len() ==> (
                        #[trigger] final(self).stats()[t].ants_per_phase@[p]) == 0
                },
            result matches Err(e) ==> e != SelectionError::GraphInvariantViolation(
                GraphInvariantViolation::UnknownPoint,
            ),
            old(self).phase() == 0 && !has_source(old(self).world().points()) ==> (
            result matches Err(e) && e == SelectionError::GraphInvariantViolation(
                GraphInvariantViolation::NoFoodsource,
            )),
            exists|trace: Seq<Self>|
                {
                    &&& #[trigger] Self::traced(trace, numerics, result)
                    &&& Self::opened(old(self), &trace[0])
                    &&& trace.last() == *final(self)
                },
            old(self).config().select == Selection::Greedy && single_valued(numerics) ==> forall|
                one: int,
                other: int,
            |
                old(self).stats().len() <= one < final(self).stats().len() && old(
                    self,
                ).stats().len() <= other < final(self).stats().len() ==> same_record(
                    &#[trigger] final(self).stats()[one],
                    &#[trigger] final(self).stats()[other],
                ),
    {
        self.abandon();
        let ghost first = *self;
        let ghost mut trace: Seq<Self> = seq![*self];
        let batch = self.batch_size;
        let cycles = self.config.cycles;
        let mut trial: usize = 0;
        while trial < batch
            invariant
                trace.len() > 0,
                trace[0] == first,
                trace.last() == *self,
                Self::traced(trace, numerics, Ok(())),
                Self::opened(old(self), &first),
                first.wf(),
                trial <= batch,
                batch == self.batch_size,
                cycles == self.config.cycles,
                self.wf(),
                self.phase == 0,
                self.same_setup(old(self)),
                self.keeps_records_of(old(self)),
                self.stats@.len() == old(self).stats@.len() + trial,
                old(self).phase == 0 && trial == 0 ==> self.world == old(self).world,
                old(self).phase == 0 && trial > 0 ==> has_source(old(self).world.points()),
            decreases batch - trial,
        {
            let ghost started = *self;
            let mut phase: usize = 0;
            while phase < cycles
                invariant
                    trace.len() > 0,
                    trace[0] == first,
                    trace.last() == *self,
                    Self::traced(trace, numerics, Ok(())),
                    Self::opened(old(self), &first),
                    first.wf(),
                    phase <= cycles,
                    cycles == self.config.cycles,
                    1 <= cycles,
                    trial < batch,
                    self.wf(),
                    self.phase == phase,
                    self.same_setup(&started),
                    self.same_setup(old(self)),
                    self.keeps_records_of(old(self)),
                    self.stats@ == started.stats@,
                    phase == 0 ==> self.world == started.world,
                    started.phase == 0,
                    old(self).phase == 0 && trial == 0 && phase > 0 ==> has_source(
                        old(self).world.points(),
                    ),
                    old(self).phase == 0 && trial == 0 ==> started.world == old(self).world,
                    old(self).phase == 0 && trial > 0 ==> has_source(old(self).world.points()),
                    batch == self.batch_size,
                    started.stats@.len() == old(self).stats@.len() + trial,
                decreases cycles - phase,
            {
                let outcome = self.run_cycle(numerics);
                proof {
                    Self::trace_grows(trace, *self, numerics, outcome);
                    trace = trace.push(*self);
                    if outcome is Ok {
                        let unit = outcome->Ok_0;
                        assert(unit == ());
                        assert(outcome == Ok::<(), SelectionError>(()));
                    }
                }
                match outcome {
                    Err(e) => {
                        proof {
                            self.records_never_fall();
                            self.records_of_returning_ants();
                            Self::records_repeat(old(self), self, trace, numerics, outcome);
                        }
                        return outcome;
                    },
                    Ok(()) => {},
                }
                phase += 1;
            }
            self.finish_trial();
            proof {
                Self::trace_grows(trace, *self, numerics, Ok(()));
                trace = trace.push(*self);
            }
            trial += 1;
        }
        proof {
            self.records_never_fall();
            self.records_of_returning_ants();
            Self::records_repeat(old(self), self, trace, numerics, Ok(()));
        }
        Ok(())
    }

    /// Where selection is greedy and the arithmetic gives one answer to
    /// one question, all the records that a batch has added say the same.
    proof fn records_repeat<N: Numerics<L>>(
        before: &Self,
        after: &Self,
        trace: Seq<Self>,
        numerics: &N,
        result: Result<(), SelectionError>,
    )
        requires
            Self::traced(trace, numerics, result),
            Self::opened(before, &trace[0]),
            trace[0].wf(),
            trace.last() == *after,
        ensures
            before.config().select == Selection::Greedy && single_valued(numerics) ==> forall|
                one: int,
                other: int,
            |
                before.stats().len() <= one < after.stats().len() && before.stats().len() <= other
                    < after.stats().len() ==> same_record(
                    &#[trigger] after.stats()[one],
                    &#[trigger] after.stats()[other],
                ),
    {
        if before.config().select == Selection::Greedy && single_valued(numerics) {
            assert forall|one: int, other: int|
                before.stats().len() <= one < after.stats().len() && before.stats().len() <= other
                    < after.stats().len() implies same_record(
                &#[trigger] after.stats()[one],
                &#[trigger] after.stats()[other],
            ) by {
                batch_leaves_equal_records(trace, numerics, result, one, other);
            }
        }
    }

    /// Where ants do not return, a fed ant stays fed: in every record, the
    /// count of fed ants never falls from one cycle to the next.
    pub proof fn records_never_fall(&self)
        requires
            self.wf(),
        ensures
            !self.config().returns ==> forall|t: int|
                0 <= t < self.stats().len() ==> never_falls(
                    (#[trigger] self.stats()[t]).ants_per_phase@,
                ),
    {
    }

    /// Where ants return, an ant that finds food starts over at once: in
    /// every record, no ant is counted as fed at the end of any cycle, and
    /// the trial has not ended with every ant fed.
    pub proof fn records_of_returning_ants(&self)
        requires
            self.wf(),
        ensures
            self.config().returns ==> forall|t: int|
                0 <= t < self.stats().len() ==> {
                    &&& !(#[trigger] self.stats()[t]).completed
                    &&& forall|p: int|
                        0 <= p < self.stats()[t].ants_per_phase@.len() ==> (
                        #[trigger] self.stats()[t].ants_per_phase@[p]) == 0
                },
    {
        if self.config().returns {
            assert forall|t: int| 0 <= t < self.stats().len() implies {
                &&& !(#[trigger] self.stats()[t]).completed
                &&& forall|p: int|
                    0 <= p < self.stats()[t].ants_per_phase@.len() ==> (
                    #[trigger] self.stats()[t].ants_per_phase@[p]) == 0
            } by {
                assert(is_record(
                    &self.stats()[t],
                    self.config(),
                    self.world().points().len(),
                ));
            }
        }
    }

    /// The records of the batch, added up.
    pub fn get_total_stats(&self) -> (totals: Totals)
        ensures
            totals.trials == self.stats().len(),
            totals.completed == completed_count(self.stats()),
            totals.ants_per_phase@.len() == self.config().cycles,
            forall|p: int|
                0 <= p < self.config().cycles ==> (#[trigger] totals.ants_per_phase@[p])
                    == phase_total(self.stats(), p),
    {
        total_stats(&self.stats, self.config.cycles)
    }

    #[inline]
    pub fn get_stats(&self) -> (stats: &Vec<Stats<L>>)
        ensures
            stats@ == self.stats(),
    {
        &self.stats
    }

    #[inline]
    pub fn get_world(&self) -> (world: &World<L>)
        ensures
            *world == self.world(),
    {
        &self.world
    }

    #[inline]
    pub fn get_ant_hill(&self) -> (hill: &AntHill)
        ensures
            *hill == self.ant_hill(),
    {
        &self.ant_hill
    }

    #[inline]
    pub fn get_config(&self) -> (config: &Config)
        ensures
            *config == self.config(),
    {
        &self.config
    }

    #[inline]
    pub fn get_batch_size(&self) -> (batch: usize)
        ensures
            batch == self.batch_size(),
    {
        self.batch_size
    }

    /// How many cycles of the trial under way have been run.
    #[inline]
    pub fn get_phase(&self) -> (phase: usize)
        ensures
            phase == self.phase(),
    {
        self.phase
    }
}

} // verus!
