use vstd::prelude::*;
use crate::numerics::{deposited, Numerics};
use crate::tech::{GraphInvariantViolation, SelectionError};
use crate::world::{
    covered, eaten, has_point, has_source, is_source, layout_keeps_points, World,
};

verus! {

/// One ant: where it has been since it last left the anthill, whether it
/// has found food, and how often it has come home fed.
pub struct Ant {
    anthill: char,
    satiated: bool,
    route: Vec<char>,
    routes_counter: usize,
}

/// What reaching point `p` does to an ant and to the graph.
///
/// The ant's route grows by `p`. If `p` holds food, the ant is fed: its
/// trail is laid, a deposit on every point of the route but the anthill; it
/// eats, if ants eat; and if ants return, it starts over at the anthill
/// with one more route to its name.
pub open spec fn arrives<L: Copy, N: Numerics<L>>(
    before: &Ant,
    after: &Ant,
    graph_before: &World<L>,
    graph_after: &World<L>,
    p: char,
    numerics: &N,
) -> bool {
    let fed = is_source(graph_before.points(), p);
    let trail = before.route().push(p);
    let home = fed && graph_before.config().returns;
    &&& after.home() == before.home()
    &&& after.route() == if home {
        seq![before.home()]
    } else {
        trail
    }
    &&& after.satiated() == if fed {
        !home
    } else {
        before.satiated()
    }
    &&& after.routes_count() == if home {
        before.routes_count() + 1
    } else {
        before.routes_count() as int
    }
    &&& graph_after.same_layout(graph_before)
    &&& forall|i: int|
        0 <= i < graph_before.points().len() ==> (#[trigger] graph_after.points()[i]).food == if fed
            && graph_before.points()[i].id == p {
            eaten(graph_before.points()[i].food, graph_before.config().rate)
        } else {
            graph_before.points()[i].food
        }
    &&& forall|i: int|
        0 <= i < graph_before.points().len() ==> if fed && covered(
            graph_before.points(),
            graph_before.anthill(),
            trail,
            i,
        ) {
            deposited(
                numerics,
                graph_before.pheromones()[i],
                #[trigger] graph_after.pheromones()[i],
            )
        } else {
            graph_after.pheromones()[i] == graph_before.pheromones()[i]
        }
}

/// What one step does to an ant and to the graph.
///
/// A fed ant stays where it is, and the graph as it is. A hungry ant is
/// given a next position by the graph, and arrives there; where the graph
/// has none for it, ant and graph stay as they are and the step fails as
/// the graph's answer says.
pub open spec fn acts<L: Copy, N: Numerics<L>>(
    before: &Ant,
    after: &Ant,
    graph_before: &World<L>,
    graph_after: &World<L>,
    numerics: &N,
    result: Result<(), SelectionError>,
) -> bool {
    if before.satiated() {
        &&& result is Ok
        &&& after.same_state(before)
        &&& graph_after.same_state(graph_before)
    } else {
        exists|position: Result<char, SelectionError>| #[trigger]
            graph_before.positioned(before.route(), numerics, position) && match position {
                Ok(p) => {
                    &&& result is Ok
                    &&& arrives(before, after, graph_before, graph_after, p, numerics)
                },
                Err(e) => {
                    &&& result == Err::<(), SelectionError>(e)
                    &&& after.same_state(before)
                    &&& graph_after.same_state(graph_before)
                },
            }
    }
}

/// The route of an ant starts at the anthill of its graph, whatever the ant
/// has done.
pub proof fn route_starts_at_anthill<L: Copy>(ant: &Ant, world: &World<L>)
    requires
        ant.wf(),
        ant.within(world),
    ensures
        ant.route().len() > 0,
        ant.route()[0] == world.anthill(),
{
}

impl Ant {
    /// The id of the anthill that the ant belongs to.
    pub closed spec fn home(&self) -> char {
        self.anthill
    }

    /// The ant has found food and has not started over.
    pub closed spec fn satiated(&self) -> bool {
        self.satiated
    }

    /// The points that the ant has been on since it last left the anthill,
    /// the anthill first.
    pub closed spec fn route(&self) -> Seq<char> {
        self.route@
    }

    /// How often the ant has come home fed.
    pub closed spec fn routes_count(&self) -> usize {
        self.routes_counter
    }

    /// What holds of every ant: its route starts at the anthill.
    pub open spec fn wf(&self) -> bool {
        self.route().len() > 0 && self.route()[0] == self.home()
    }

    /// The ant as it leaves the anthill for the first time.
    pub open spec fn fresh(&self) -> bool {
        &&& self.route() == seq![self.home()]
        &&& !self.satiated()
        &&& self.routes_count() == 0
    }

    /// The ant belongs to this graph: its anthill is the graph's, and every
    /// point of its route is a point of the graph.
    pub open spec fn within<L: Copy>(&self, world: &World<L>) -> bool {
        &&& self.home() == world.anthill()
        &&& forall|k: int|
            0 <= k < self.route().len() ==> has_point(world.points(), #[trigger] self.route()[k])
    }

    /// The ant stands as `other` does: the same route, hunger and count.
    pub open spec fn same_state(&self, other: &Ant) -> bool {
        &&& self.home() == other.home()
        &&& self.route() == other.route()
        &&& self.satiated() == other.satiated()
        &&& self.routes_count() == other.routes_count()
    }

    /// The ant is one step on from `before`: its route is longer by a
    /// point that it had not seen, or, where ants return, it has found
    /// food and starts over with one more route to its name.
    pub open spec fn after_step(&self, before: &Ant, ants_return: bool) -> bool {
        ||| {
            &&& self.route().len() == before.route().len() + 1
            &&& self.route().drop_last() == before.route()
            &&& !before.route().contains(self.route().last())
            &&& self.routes_count() == before.routes_count()
        }
        ||| {
            &&& ants_return
            &&& self.route() == seq![before.home()]
            &&& !self.satiated()
            &&& self.routes_count() == before.routes_count() + 1
        }
    }

    pub fn new(anthill_id: char) -> (ant: Self)
        ensures
            ant.wf(),
            ant.fresh(),
            ant.home() == anthill_id,
    {
        let mut route: Vec<char> = Vec::new();
        route.push(anthill_id);
        assert(route@ =~= seq![anthill_id]);
        Ant { anthill: anthill_id, satiated: false, route, routes_counter: 0 }
    }

    /// The ant stands on the anthill again, hungry, its route forgotten.
    fn reset_position(&mut self)
        requires
            old(self).wf(),
        ensures
            final(self).wf(),
            final(self).home() == old(self).home(),
            final(self).route() == seq![old(self).home()],
            !final(self).satiated(),
            final(self).routes_count() == old(self).routes_count(),
    {
        self.satiated = false;
        self.route.truncate(1);
        assert(self.route@ =~= seq![self.anthill]);
    }

    /// The ant is as it was made: on the anthill, hungry, with no route to
    /// its name.
    pub fn reset(&mut self)
        requires
            old(self).wf(),
        ensures
            final(self).wf(),
            final(self).fresh(),
            final(self).home() == old(self).home(),
    {
        self.reset_position();
        self.routes_counter = 0;
    }

    /// The ant steps onto `new_position`: see `arrives`.
    pub fn arrive<L: Copy, N: Numerics<L>>(
        &mut self,
        world: &mut World<L>,
        new_position: char,
        numerics: &N,
    )
        requires
            old(self).wf(),
            old(world).wf(),
            old(self).routes_count() < usize::MAX,
        ensures
            final(self).wf(),
            final(world).wf(),
            arrives(old(self), final(self), old(world), final(world), new_position, numerics),
            old(self).within(old(world)) && has_point(old(world).points(), new_position)
                ==> final(self).within(final(world)),
    {
        let food_reached = world.is_foodsource(&new_position);
        self.route.push(new_position);
        if food_reached {
            self.satiated = true;
            world.cover_route(&self.route, numerics);
            if world.do_ants_consume() {
                let _ = world.consume_foodsource(new_position);
            } else {
                assert forall|i: int| 0 <= i < world.points().len() implies eaten(
                    (#[trigger] world.points()[i]).food,
                    world.config().rate,
                ) == world.points()[i].food by {}
            }
            if world.do_ants_return() {
                self.reset_position();
                self.routes_counter += 1;
            }
        }
        proof {
            if old(self).within(old(world)) && has_point(old(world).points(), new_position) {
                assert(old(world).points()[0].id == old(world).anthill());
                assert forall|k: int| 0 <= k < self.route().len() implies has_point(
                    world.points(),
                    #[trigger] self.route()[k],
                ) by {
                    layout_keeps_points(old(world), world, self.route()[k]);
                    if self.route() == old(self).route().push(new_position)
                        && k < old(self).route().len() {
                        assert(self.route()[k] == old(self).route()[k]);
                    }
                }
            }
        }
    }

    /// One step of the ant. A fed ant stays where it is. A hungry ant asks
    /// the graph where to go, and goes there.
    pub fn action<L: Copy, N: Numerics<L>>(&mut self, world: &mut World<L>, numerics: &N) -> (result:
        Result<(), SelectionError>)
        requires
            old(self).wf(),
            old(world).wf(),
            old(self).routes_count() < usize::MAX,
        ensures
            final(self).wf(),
            final(world).wf(),
            acts(old(self), final(self), old(world), final(world), numerics, result),
            final(world).same_layout(old(world)),
            final(self).home() == old(self).home(),
            old(self).satiated() ==> result is Ok,
            old(self).satiated() || result is Err ==> {
                &&& final(self).same_state(old(self))
                &&& final(world).points() == old(world).points()
                &&& final(world).pheromones() == old(world).pheromones()
            },
            !old(self).satiated() && result is Ok ==> final(self).after_step(
                old(self),
                old(world).config().returns,
            ),
            forall|i: int|
                0 <= i < old(world).points().len() ==> (#[trigger] final(world).points()[i]).food
                    <= old(world).points()[i].food,
            !old(self).satiated() && result is Ok ==> exists|p: char|
                {
                    &&& has_point(old(world).points(), p)
                    &&& !old(self).route().contains(p)
                    &&& #[trigger] arrives(
                        old(self),
                        final(self),
                        old(world),
                        final(world),
                        p,
                        numerics,
                    )
                },
            !old(self).satiated() && !has_source(old(world).points()) ==> result == Err::<
                (),
                SelectionError,
            >(SelectionError::GraphInvariantViolation(GraphInvariantViolation::NoFoodsource)),
            !old(self).satiated() && has_source(old(world).points()) && !has_point(
                old(world).points(),
                old(self).route().last(),
            ) ==> result == Err::<(), SelectionError>(
                SelectionError::GraphInvariantViolation(GraphInvariantViolation::UnknownPoint),
            ),
            !old(self).satiated() && has_source(old(world).points()) && has_point(
                old(world).points(),
                old(self).route().last(),
            ) ==> (result is Ok || result == Err::<(), SelectionError>(
                SelectionError::StuckSelection,
            )),
            !old(world).config().returns && old(self).satiated() ==> final(self).satiated(),
            old(world).config().returns && !old(self).satiated() ==> !final(self).satiated(),
            old(self).within(old(world)) ==> {
                &&& final(self).within(final(world))
                &&& result != Err::<(), SelectionError>(
                    SelectionError::GraphInvariantViolation(GraphInvariantViolation::UnknownPoint),
                )
            },
    {
        if self.satiated {
            return Ok(());
        }
        assert(old(self).within(old(world)) ==> has_point(
            world.points(),
            self.route()[self.route().len() - 1],
        ));
        match world.get_new_position(&self.route, numerics) {
            Err(e) => Err(e),
            Ok(new_position) => {
                self.arrive(world, new_position, numerics);
                assert(old(self).route().push(new_position).drop_last() =~= old(self).route());
                Ok(())
            },
        }
    }

    #[inline]
    pub fn is_satiated(&self) -> (b: bool)
        ensures
            b == self.satiated(),
    {
        self.satiated
    }

    #[inline]
    pub fn get_route(&self) -> (route: &Vec<char>)
        ensures
            route@ == self.route(),
    {
        &self.route
    }

    #[inline]
    pub fn get_route_length(&self) -> (n: usize)
        ensures
            n == self.route().len(),
    {
        self.route.len()
    }

    #[inline]
    pub fn get_routes_count(&self) -> (n: usize)
        ensures
            n == self.routes_count(),
    {
        self.routes_counter
    }
}

} // verus!
