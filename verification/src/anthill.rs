use vstd::prelude::*;
use crate::ant::{acts, Ant};
use crate::numerics::Numerics;
use crate::tech::{GraphInvariantViolation, SelectionError};
use crate::world::{has_point, has_source, layout_keeps_points, World};

verus! {

/// An average, held exactly: the sum of the values and how many they are.
#[derive(Clone, Copy, Debug, PartialEq, Eq, Structural)]
pub struct Average {
    pub total: u128,
    pub count: usize,
}

/// How many of the ants are fed.
pub open spec fn count_satiated(ants: Seq<Ant>) -> nat
    decreases ants.len(),
{
    if ants.len() == 0 {
        0
    } else {
        count_satiated(ants.drop_last()) + if ants.last().satiated() {
            1nat
        } else {
            0nat
        }
    }
}

/// The lengths of the ants' routes, added up.
pub open spec fn total_route_length(ants: Seq<Ant>) -> nat
    decreases ants.len(),
{
    if ants.len() == 0 {
        0
    } else {
        total_route_length(ants.drop_last()) + ants.last().route().len()
    }
}

/// The numbers of routes that the ants have to their names, added up.
pub open spec fn total_routes_count(ants: Seq<Ant>) -> nat
    decreases ants.len(),
{
    if ants.len() == 0 {
        0
    } else {
        total_routes_count(ants.drop_last()) + ants.last().routes_count() as nat
    }
}

/// Every ant is fed.
pub open spec fn all_satiated(ants: Seq<Ant>) -> bool {
    forall|i: int| 0 <= i < ants.len() ==> (#[trigger] ants[i]).satiated()
}

/// No ant is fed.
pub open spec fn none_satiated(ants: Seq<Ant>) -> bool {
    forall|i: int| 0 <= i < ants.len() ==> !(#[trigger] ants[i]).satiated()
}

/// Every ant that is fed in `before` is fed in `after`.
pub open spec fn none_hungry_again(before: Seq<Ant>, after: Seq<Ant>) -> bool {
    &&& before.len() == after.len()
    &&& forall|i: int| 0 <= i < before.len() && (#[trigger] before[i]).satiated() ==> after[i].satiated()
}

/// What one cycle does to the ants and to the graph.
///
/// The ants act in their order, each on the graph as the ant before it has
/// left it: `graphs` holds the graph as the first ant finds it, then as
/// each ant that has acted leaves it. Every step but the last succeeds.
/// Where the last step fails, the ants behind stay as they are, and the
/// cycle fails as that step does; else every ant has acted.
pub open spec fn steps<L: Copy, N: Numerics<L>>(
    before: Seq<Ant>,
    after: Seq<Ant>,
    graphs: Seq<World<L>>,
    numerics: &N,
    result: Result<(), SelectionError>,
) -> bool {
    let done = graphs.len() - 1;
    &&& after.len() == before.len()
    &&& 0 <= done <= before.len()
    &&& forall|i: int|
        0 <= i < done ==> acts(
            &#[trigger] before[i],
            &after[i],
            &graphs[i],
            &graphs[i + 1],
            numerics,
            if i == done - 1 {
                result
            } else {
                Ok(())
            },
        )
    &&& forall|i: int| done <= i < before.len() ==> after[i] == #[trigger] before[i]
    &&& match result {
        Ok(_) => done == before.len(),
        Err(_) => done >= 1,
    }
}

/// No more ants are fed than there are ants.
pub proof fn count_satiated_bounded(ants: Seq<Ant>)
    ensures
        count_satiated(ants) <= ants.len(),
    decreases ants.len(),
{
    if ants.len() > 0 {
        count_satiated_bounded(ants.drop_last());
    }
}

/// All ants are fed exactly when the number of fed ants is the number of ants.
pub proof fn all_satiated_is_full_count(ants: Seq<Ant>)
    ensures
        all_satiated(ants) <==> count_satiated(ants) == ants.len(),
    decreases ants.len(),
{
    if ants.len() > 0 {
        let front = ants.drop_last();
        all_satiated_is_full_count(front);
        count_satiated_bounded(front);
        if all_satiated(ants) {
            assert forall|i: int| 0 <= i < front.len() implies (#[trigger] front[i]).satiated() by {
                assert(front[i] == ants[i]);
            }
            assert(ants[ants.len() - 1].satiated());
        }
        if count_satiated(ants) == ants.len() {
            assert forall|i: int| 0 <= i < ants.len() implies (#[trigger] ants[i]).satiated() by {
                if i < front.len() {
                    assert(front[i] == ants[i]);
                }
            }
        }
    }
}

/// Where no fed ant goes hungry again, the number of fed ants does not fall.
pub proof fn count_satiated_grows(before: Seq<Ant>, after: Seq<Ant>)
    requires
        none_hungry_again(before, after),
    ensures
        count_satiated(before) <= count_satiated(after),
    decreases before.len(),
{
    if before.len() > 0 {
        let b = before.drop_last();
        let a = after.drop_last();
        assert forall|i: int| 0 <= i < b.len() && (#[trigger] b[i]).satiated() implies a[i].satiated() by {
            assert(b[i] == before[i] && a[i] == after[i]);
        }
        count_satiated_grows(b, a);
        assert(before[before.len() - 1].satiated() ==> after[after.len() - 1].satiated());
    }
}

/// Where no ant is fed, the number of fed ants is nothing.
pub proof fn none_satiated_counts_nothing(ants: Seq<Ant>)
    requires
        none_satiated(ants),
    ensures
        count_satiated(ants) == 0,
    decreases ants.len(),
{
    if ants.len() > 0 {
        let front = ants.drop_last();
        assert forall|i: int| 0 <= i < front.len() implies !(#[trigger] front[i]).satiated() by {
            assert(front[i] == ants[i]);
        }
        none_satiated_counts_nothing(front);
        assert(!ants[ants.len() - 1].satiated());
    }
}

/// Where no ant has a route to its name, the routes add up to none.
pub proof fn no_routes_total(ants: Seq<Ant>)
    requires
        forall|i: int| 0 <= i < ants.len() ==> (#[trigger] ants[i]).routes_count() == 0,
    ensures
        total_routes_count(ants) == 0,
    decreases ants.len(),
{
    if ants.len() > 0 {
        let front = ants.drop_last();
        assert forall|i: int| 0 <= i < front.len() implies (#[trigger] front[i]).routes_count()
            == 0 by {
            assert(front[i] == ants[i]);
        }
        no_routes_total(front);
        assert(ants[ants.len() - 1].routes_count() == 0);
    }
}

/// The colony: a fixed number of ants that share an anthill.
pub struct AntHill {
    ants: Vec<Ant>,
}

impl AntHill {
    /// The ants, in the order in which they act.
    pub closed spec fn ants(&self) -> Seq<Ant> {
        self.ants@
    }

    /// What holds of every colony: each ant's route starts at its anthill.
    pub open spec fn wf(&self) -> bool {
        forall|i: int| 0 <= i < self.ants().len() ==> (#[trigger] self.ants()[i]).wf()
    }

    /// Every ant is as it was made.
    pub open spec fn fresh(&self) -> bool {
        forall|i: int| 0 <= i < self.ants().len() ==> (#[trigger] self.ants()[i]).fresh()
    }

    /// No ant has more than `bound` routes to its name.
    pub open spec fn routes_within(&self, bound: int) -> bool {
        forall|i: int| 0 <= i < self.ants().len() ==> (#[trigger] self.ants()[i]).routes_count() <= bound
    }

    /// Every ant belongs to this graph.
    pub open spec fn within<L: Copy>(&self, world: &World<L>) -> bool {
        forall|i: int| 0 <= i < self.ants().len() ==> (#[trigger] self.ants()[i]).within(world)
    }

    /// The other colony has as many ants, with the same anthills.
    pub open spec fn same_ants(&self, other: &Self) -> bool {
        &&& self.ants().len() == other.ants().len()
        &&& forall|i: int|
            0 <= i < self.ants().len() ==> (#[trigger] self.ants()[i]).home() == other.ants()[i].home()
    }

    /// A colony that belongs to a graph belongs to every graph of the same
    /// layout.
    pub proof fn layout_keeps_ants<L: Copy>(&self, before: &World<L>, after: &World<L>)
        requires
            self.within(before),
            after.same_layout(before),
        ensures
            self.within(after),
    {
        assert forall|i: int| 0 <= i < self.ants().len() implies (#[trigger] self.ants()[i]).within(
            after,
        ) by {
            let ant = self.ants()[i];
            assert(ant.within(before));
            assert forall|k: int| 0 <= k < ant.route().len() implies has_point(
                after.points(),
                #[trigger] ant.route()[k],
            ) by {
                layout_keeps_points(before, after, ant.route()[k]);
            }
        }
    }

    /// A colony of `number_of_ants` ants on the anthill of `world`.
    pub fn new<L: Copy>(world: &World<L>, number_of_ants: usize) -> (hill: Self)
        ensures
            hill.wf(),
            hill.fresh(),
            hill.ants().len() == number_of_ants,
            forall|i: int|
                0 <= i < number_of_ants ==> (#[trigger] hill.ants()[i]).home() == world.anthill(),
            world.wf() ==> hill.within(world),
    {
        let anthill = world.get_anthill();
        let mut ants: Vec<Ant> = Vec::new();
        let mut i: usize = 0;
        while i < number_of_ants
            invariant
                i <= number_of_ants,
                ants@.len() == i,
                anthill == world.anthill(),
                forall|j: int| 0 <= j < i ==> (#[trigger] ants@[j]).wf(),
                forall|j: int| 0 <= j < i ==> (#[trigger] ants@[j]).fresh(),
                forall|j: int| 0 <= j < i ==> (#[trigger] ants@[j]).home() == anthill,
            decreases number_of_ants - i,
        {
            ants.push(Ant::new(anthill));
            i += 1;
        }
        proof {
            if world.wf() {
                assert(world.points()[0].id == anthill);
                assert forall|j: int| 0 <= j < ants@.len() implies (#[trigger] ants@[j]).within(
                    world,
                ) by {
                    assert(ants@[j].fresh());
                }
            }
        }
        AntHill { ants }
    }

    /// One cycle of the colony: every hungry ant takes a step, one after
    /// the other, each on the graph as the ants before it have left it.
    /// The first ant that cannot be given a position ends the cycle.
    pub fn action<L: Copy, N: Numerics<L>>(&mut self, world: &mut World<L>, numerics: &N) -> (result:
        Result<(), SelectionError>)
        requires
            old(self).wf(),
            old(world).wf(),
            old(self).routes_within(usize::MAX - 1),
        ensures
            final(self).wf(),
            final(world).wf(),
            exists|graphs: Seq<World<L>>|
                {
                    &&& graphs.len() > 0
                    &&& graphs[0] == *old(world)
                    &&& graphs.last() == *final(world)
                    &&& #[trigger] steps(
                        old(self).ants(),
                        final(self).ants(),
                        graphs,
                        numerics,
                        result,
                    )
                },
            final(world).same_layout(old(world)),
            final(self).same_ants(old(self)),
            forall|i: int|
                0 <= i < old(self).ants().len() ==> (#[trigger] final(self).ants()[i]).routes_count()
                    <= old(self).ants()[i].routes_count() + 1,
            !old(world).config().returns ==> none_hungry_again(old(self).ants(), final(self).ants()),
            !old(world).config().returns ==> forall|i: int|
                0 <= i < old(self).ants().len() ==> (#[trigger] final(self).ants()[i]).routes_count()
                    == old(self).ants()[i].routes_count(),
            !old(world).config().returns ==> count_satiated(old(self).ants()) <= count_satiated(
                final(self).ants(),
            ),
            old(world).config().returns && none_satiated(old(self).ants()) ==> none_satiated(
                final(self).ants(),
            ),
            forall|i: int|
                0 <= i < old(self).ants().len() && (#[trigger] old(self).ants()[i]).satiated()
                    ==> final(self).ants()[i].same_state(&old(self).ants()[i]),
            result is Ok ==> forall|i: int|
                0 <= i < old(self).ants().len() && !(#[trigger] old(self).ants()[i]).satiated()
                    ==> final(self).ants()[i].after_step(
                    &old(self).ants()[i],
                    old(world).config().returns,
                ),
            forall|i: int|
                0 <= i < old(world).points().len() ==> (#[trigger] final(world).points()[i]).food
                    <= old(world).points()[i].food,
            all_satiated(old(self).ants()) ==> {
                &&& result is Ok
                &&& final(world).points() == old(world).points()
                &&& final(world).pheromones() == old(world).pheromones()
                &&& all_satiated(final(self).ants())
            },
            !has_source(old(world).points()) && !all_satiated(old(self).ants()) ==> result == Err::<
                (),
                SelectionError,
            >(SelectionError::GraphInvariantViolation(GraphInvariantViolation::NoFoodsource)),
            old(self).within(old(world)) ==> {
                &&& final(self).within(final(world))
                &&& result != Err::<(), SelectionError>(
                    SelectionError::GraphInvariantViolation(GraphInvariantViolation::UnknownPoint),
                )
            },
    {
        let n = self.ants.len();
        let mut i: usize = 0;
        let ghost mut graphs: Seq<World<L>> = seq![*world];
        while i < n
            invariant
                i <= n,
                n == self.ants@.len(),
                n == old(self).ants@.len(),
                world.wf(),
                world.same_layout(old(world)),
                graphs.len() == i + 1,
                graphs[0] == *old(world),
                graphs[i as int] == *world,
                forall|j: int|
                    0 <= j < i ==> acts(
                        &#[trigger] old(self).ants@[j],
                        &self.ants@[j],
                        &graphs[j],
                        &graphs[j + 1],
                        numerics,
                        Ok(()),
                    ),
                forall|j: int| 0 <= j < n ==> (#[trigger] self.ants@[j]).wf(),
                forall|j: int| 0 <= j < n ==> (#[trigger] self.ants@[j]).home() == old(self).ants@[j].home(),
                forall|j: int| i <= j < n ==> self.ants@[j] == old(self).ants@[j],
                forall|j: int|
                    0 <= j < n ==> (#[trigger] self.ants@[j]).routes_count() <= old(
                        self,
                    ).ants@[j].routes_count() + 1,
                old(self).routes_within(usize::MAX - 1),
                !world.config().returns ==> forall|j: int|
                    0 <= j < n && (#[trigger] old(self).ants@[j]).satiated() ==> self.ants@[j].satiated(),
                world.config().returns ==> forall|j: int|
                    0 <= j < n && !(#[trigger] old(self).ants@[j]).satiated() ==> !self.ants@[j].satiated(),
                !world.config().returns ==> forall|j: int|
                    0 <= j < n ==> (#[trigger] self.ants@[j]).routes_count() == old(
                        self,
                    ).ants@[j].routes_count(),
                (forall|j: int| 0 <= j < i ==> (#[trigger] old(self).ants@[j]).satiated()) ==> {
                    &&& world.points() == old(world).points()
                    &&& world.pheromones() == old(world).pheromones()
                    &&& forall|j: int| 0 <= j < i ==> (#[trigger] self.ants@[j]).satiated()
                },
                !has_source(old(world).points()) ==> forall|j: int|
                    0 <= j < i ==> (#[trigger] old(self).ants@[j]).satiated(),
                forall|j: int|
                    0 <= j < n && (#[trigger] old(self).ants@[j]).satiated() ==> self.ants@[j].same_state(
                        &old(self).ants@[j],
                    ),
                forall|j: int|
                    0 <= j < i && !(#[trigger] old(self).ants@[j]).satiated()
                        ==> self.ants@[j].after_step(&old(self).ants@[j], world.config().returns),
                forall|j: int|
                    0 <= j < world.points().len() ==> (#[trigger] world.points()[j]).food <= old(
                        world,
                    ).points()[j].food,
                old(self).within(old(world)) ==> forall|j: int|
                    0 <= j < n ==> (#[trigger] self.ants@[j]).within(world),
            decreases n - i,
        {
            let ghost before = self.ants@;
            let ghost graph = *world;
            assert(before[i as int] == old(self).ants@[i as int]);
            assert(old(self).ants()[i as int].routes_count() <= usize::MAX - 1);
            let outcome = self.ants[i].action(world, numerics);
            assert(forall|j: int| 0 <= j < n && j != i ==> self.ants@[j] == before[j]);
            let ghost seen = graphs;
            proof {
                graphs = graphs.push(*world);
                assert(forall|j: int| 0 <= j <= i ==> graphs[j] == seen[j]);
                assert(acts(
                    &old(self).ants@[i as int],
                    &self.ants@[i as int],
                    &graphs[i as int],
                    &graphs[i + 1],
                    numerics,
                    outcome,
                ));
            }
            proof {
                if old(self).within(old(world)) {
                    assert forall|j: int| 0 <= j < n implies (#[trigger] self.ants@[j]).within(
                        world,
                    ) by {
                        if j != i {
                            assert(before[j].within(&graph));
                            assert forall|k: int| 0 <= k < before[j].route().len() implies has_point(
                                world.points(),
                                #[trigger] before[j].route()[k],
                            ) by {
                                layout_keeps_points(&graph, world, before[j].route()[k]);
                            }
                        }
                    }
                }
            }
            match outcome {
                Err(e) => {
                    proof {
                        if !world.config().returns {
                            count_satiated_grows(old(self).ants@, self.ants@);
                        }
                        assert(steps(old(self).ants(), self.ants(), graphs, numerics, outcome));
                        assert(graphs[0] == *old(world) && graphs.last() == *world);
                    }
                    return Err(e);
                },
                Ok(()) => {},
            }
            i += 1;
        }
        proof {
            if !world.config().returns {
                count_satiated_grows(old(self).ants@, self.ants@);
            }
            assert(steps(old(self).ants(), self.ants(), graphs, numerics, Ok(())));
            assert(graphs[0] == *old(world) && graphs.last() == *world);
        }
        Ok(())
    }

    /// Every ant is as it was made.
    pub fn reset(&mut self)
        requires
            old(self).wf(),
        ensures
            final(self).wf(),
            final(self).fresh(),
            final(self).same_ants(old(self)),
    {
        let n = self.ants.len();
        let mut i: usize = 0;
        assert forall|j: int| 0 <= j < n implies (#[trigger] self.ants@[j]).wf() by {
            assert(self.ants()[j].wf());
        }
        while i < n
            invariant
                i <= n,
                n == self.ants@.len(),
                n == old(self).ants@.len(),
                forall|j: int| 0 <= j < n ==> (#[trigger] self.ants@[j]).wf(),
                forall|j: int| 0 <= j < n ==> (#[trigger] self.ants@[j]).home() == old(self).ants@[j].home(),
                forall|j: int| 0 <= j < i ==> (#[trigger] self.ants@[j]).fresh(),
            decreases n - i,
        {
            let ghost before = self.ants@;
            self.ants[i].reset();
            assert(forall|j: int| 0 <= j < n && j != i ==> self.ants@[j] == before[j]);
            i += 1;
        }
    }

    /// The average length of the ants' routes.
    pub fn get_average_route_length(&self) -> (average: Average)
        ensures
            average.total == total_route_length(self.ants()),
            average.count == self.ants().len(),
    {
        let n = self.ants.len();
        let mut total: u128 = 0;
        let mut i: usize = 0;
        while i < n
            invariant
                i <= n,
                n == self.ants@.len(),
                total == total_route_length(self.ants@.subrange(0, i as int)),
                total <= i * usize::MAX,
            decreases n - i,
        {
            let length = self.ants[i].get_route_length();
            assert(self.ants@.subrange(0, i + 1).drop_last() =~= self.ants@.subrange(0, i as int));
            assert(total + length <= (i + 1) * usize::MAX <= u128::MAX) by (nonlinear_arith)
                requires
                    total <= i * usize::MAX,
                    length <= usize::MAX,
                    i < usize::MAX,
                    usize::MAX <= u64::MAX,
            ;
            total = total + length as u128;
            i += 1;
        }
        assert(self.ants@.subrange(0, n as int) =~= self.ants@);
        Average { total, count: n }
    }

    /// The average number of routes that an ant has to its name.
    pub fn get_average_routes_count(&self) -> (average: Average)
        ensures
            average.total == total_routes_count(self.ants()),
            average.count == self.ants().len(),
    {
        let n = self.ants.len();
        let mut total: u128 = 0;
        let mut i: usize = 0;
        while i < n
            invariant
                i <= n,
                n == self.ants@.len(),
                total == total_routes_count(self.ants@.subrange(0, i as int)),
                total <= i * usize::MAX,
            decreases n - i,
        {
            let routes = self.ants[i].get_routes_count();
            assert(self.ants@.subrange(0, i + 1).drop_last() =~= self.ants@.subrange(0, i as int));
            assert(total + routes <= (i + 1) * usize::MAX <= u128::MAX) by (nonlinear_arith)
                requires
                    total <= i * usize::MAX,
                    routes <= usize::MAX,
                    i < usize::MAX,
                    usize::MAX <= u64::MAX,
            ;
            total = total + routes as u128;
            i += 1;
        }
        assert(self.ants@.subrange(0, n as int) =~= self.ants@);
        Average { total, count: n }
    }

    /// How many ants are fed.
    pub fn get_satiated_ants_count(&self) -> (count: usize)
        ensures
            count == count_satiated(self.ants()),
            count <= self.ants().len(),
    {
        let n = self.ants.len();
        let mut count: usize = 0;
        let mut i: usize = 0;
        while i < n
            invariant
                i <= n,
                n == self.ants@.len(),
                count == count_satiated(self.ants@.subrange(0, i as int)),
                count <= i,
            decreases n - i,
        {
            assert(self.ants@.subrange(0, i + 1).drop_last() =~= self.ants@.subrange(0, i as int));
            if self.ants[i].is_satiated() {
                count += 1;
            }
            i += 1;
        }
        assert(self.ants@.subrange(0, n as int) =~= self.ants@);
        count
    }

    /// Whether every ant is fed.
    pub fn has_all_ants_satiated(&self) -> (all: bool)
        ensures
            all == all_satiated(self.ants()),
            all == (count_satiated(self.ants()) == self.ants().len()),
    {
        proof {
            all_satiated_is_full_count(self.ants@);
        }
        let n = self.ants.len();
        let mut i: usize = 0;
        while i < n
            invariant
                i <= n,
                n == self.ants@.len(),
                all_satiated(self.ants@) <==> count_satiated(self.ants@) == self.ants@.len(),
                forall|j: int| 0 <= j < i ==> (#[trigger] self.ants@[j]).satiated(),
            decreases n - i,
        {
            if !self.ants[i].is_satiated() {
                return false;
            }
            i += 1;
        }
        true
    }

    #[inline]
    pub fn get_number_of_ants(&self) -> (n: usize)
        ensures
            n == self.ants().len(),
    {
        self.ants.len()
    }

    #[inline]
    pub fn get_ants(&self) -> (ants: &Vec<Ant>)
        ensures
            ants@ == self.ants(),
    {
        &self.ants
    }
}

} // verus!
