use vstd::prelude::*;
use crate::ant::{acts, arrives, Ant};
use crate::anthill::{
    all_satiated, count_satiated, steps, total_route_length, total_routes_count,
};
use crate::numerics::{decayed, dispersed, judged, single_valued, Numerics};
use crate::ranking::is_ranking;
use crate::simul::{scheduled, Simulator};
use crate::stats::Stats;
use crate::tech::{Selection, SelectionError};
use crate::utils::Auxil;
use crate::world::{greedy_position_is_determined, has_point, has_source, World};

verus! {

/// A graph of the layout of a sound graph is sound.
pub proof fn layout_keeps_soundness<L: Copy>(before: &World<L>, after: &World<L>)
    requires
        before.wf(),
        after.same_layout(before),
    ensures
        after.wf(),
{
    assert forall|i: int, j: int| 0 <= i < j < after.points().len() implies after.points()[i].id
        != after.points()[j].id by {
        assert(after.points()[i].id == before.points()[i].id);
        assert(after.points()[j].id == before.points()[j].id);
    }
    assert(after.points()[0].id == before.points()[0].id);
}

/// The graph holds food and the ant stands on one of its points.
pub open spec fn has_both<L: Copy>(world: &World<L>, visited: Seq<char>) -> bool {
    has_source(world.points()) && visited.len() > 0 && has_point(
        world.points(),
        visited.last(),
    )
}

/// What is a next position on a graph is one on every graph of the same
/// state.
pub proof fn position_on_equal_graphs<L: Copy, N: Numerics<L>>(
    one: &World<L>,
    other: &World<L>,
    visited: Seq<char>,
    numerics: &N,
    result: Result<char, SelectionError>,
)
    requires
        one.same_state(other),
        one.positioned(visited, numerics, result),
    ensures
        other.positioned(visited, numerics, result),
{
    if has_both(one, visited) {
        let (here, auxils, order) = choose|here: int, auxils: Seq<Auxil>, order: Seq<usize>|
            {
                &&& 0 <= here < one.points().len()
                &&& one.points()[here].id == visited.last()
                &&& #[trigger] one.appraised(visited, here, numerics, auxils)
                &&& #[trigger] is_ranking(auxils, order)
                &&& one.selected(auxils, order, visited, numerics, result)
            };
        assert(other.appraised(visited, here, numerics, auxils));
        assert(other.selected(auxils, order, visited, numerics, result));
    }
}

/// Where the arithmetic gives one answer to one question, arriving at a
/// point does one thing: from the same ant on the same graph it leads to
/// the same ant and the same graph.
pub proof fn arrival_is_determined<L: Copy, N: Numerics<L>>(
    before: (&Ant, &Ant),
    after: (&Ant, &Ant),
    graph_before: (&World<L>, &World<L>),
    graph_after: (&World<L>, &World<L>),
    p: char,
    numerics: &N,
)
    requires
        single_valued(numerics),
        graph_before.0.wf(),
        before.0.same_state(before.1),
        graph_before.0.same_state(graph_before.1),
        arrives(before.0, after.0, graph_before.0, graph_after.0, p, numerics),
        arrives(before.1, after.1, graph_before.1, graph_after.1, p, numerics),
    ensures
        after.0.same_state(after.1),
        graph_after.0.same_state(graph_after.1),
{
    let g = graph_before.0;
    let h0 = graph_after.0;
    let h1 = graph_after.1;
    assert forall|i: int| 0 <= i < h0.points().len() implies h0.points()[i] == h1.points()[i] by {
        assert(h0.points()[i].id == g.points()[i].id);
        assert(h1.points()[i].id == graph_before.1.points()[i].id);
        assert(h0.points()[i].food == h1.points()[i].food);
    }
    assert(h0.points() =~= h1.points());
    assert forall|i: int| 0 <= i < h0.pheromones().len() implies h0.pheromones()[i]
        == h1.pheromones()[i] by {
        assert(g.points()[i] == graph_before.1.points()[i]);
        assert(g.pheromones()[i] == graph_before.1.pheromones()[i]);
    }
    assert(h0.pheromones() =~= h1.pheromones());
}

/// Where selection is greedy and the arithmetic gives one answer to one
/// question, a step of an ant does one thing: from the same ant on the
/// same graph it leads to the same ant and the same graph, and fails in
/// the same way or not at all.
pub proof fn step_is_determined<L: Copy, N: Numerics<L>>(
    before: (&Ant, &Ant),
    after: (&Ant, &Ant),
    graph_before: (&World<L>, &World<L>),
    graph_after: (&World<L>, &World<L>),
    numerics: &N,
    result: (Result<(), SelectionError>, Result<(), SelectionError>),
)
    requires
        single_valued(numerics),
        graph_before.0.wf(),
        graph_before.0.config().select == Selection::Greedy,
        before.0.same_state(before.1),
        graph_before.0.same_state(graph_before.1),
        acts(before.0, after.0, graph_before.0, graph_after.0, numerics, result.0),
        acts(before.1, after.1, graph_before.1, graph_after.1, numerics, result.1),
    ensures
        after.0.same_state(after.1),
        graph_after.0.same_state(graph_after.1),
        graph_after.0.wf(),
        graph_after.0.config() == graph_before.0.config(),
        result.0 is Ok <==> result.1 is Ok,
        result.0 is Err ==> result.0 == result.1,
{
    if !before.0.satiated() {
        let first = choose|position: Result<char, SelectionError>| #[trigger]
            graph_before.0.positioned(before.0.route(), numerics, position) && match position {
                Ok(p) => {
                    &&& result.0 is Ok
                    &&& arrives(before.0, after.0, graph_before.0, graph_after.0, p, numerics)
                },
                Err(e) => {
                    &&& result.0 == Err::<(), SelectionError>(e)
                    &&& after.0.same_state(before.0)
                    &&& graph_after.0.same_state(graph_before.0)
                },
            };
        let second = choose|position: Result<char, SelectionError>| #[trigger]
            graph_before.1.positioned(before.1.route(), numerics, position) && match position {
                Ok(p) => {
                    &&& result.1 is Ok
                    &&& arrives(before.1, after.1, graph_before.1, graph_after.1, p, numerics)
                },
                Err(e) => {
                    &&& result.1 == Err::<(), SelectionError>(e)
                    &&& after.1.same_state(before.1)
                    &&& graph_after.1.same_state(graph_before.1)
                },
            };
        same_state_is_symmetric(graph_before.0, graph_before.1);
        position_on_equal_graphs(
            graph_before.1,
            graph_before.0,
            before.1.route(),
            numerics,
            second,
        );
        greedy_position_is_determined(graph_before.0, before.0.route(), numerics, first, second);
        match first {
            Ok(p) => {
                arrival_is_determined(before, after, graph_before, graph_after, p, numerics);
            },
            Err(_) => {
                same_state_is_transitive(graph_after.0, graph_before.0, graph_before.1);
                same_state_is_symmetric(graph_after.1, graph_before.1);
                same_state_is_transitive(graph_after.0, graph_before.1, graph_after.1);
            },
        }
    } else {
        same_state_is_transitive(graph_after.0, graph_before.0, graph_before.1);
        same_state_is_symmetric(graph_after.1, graph_before.1);
        same_state_is_transitive(graph_after.0, graph_before.1, graph_after.1);
    }
    layout_keeps_soundness(graph_before.0, graph_after.0);
}

/// The ants of two colonies stand alike, one by one.
pub open spec fn same_colony(one: Seq<Ant>, other: Seq<Ant>) -> bool {
    &&& one.len() == other.len()
    &&& forall|i: int| 0 <= i < one.len() ==> (#[trigger] one[i]).same_state(&other[i])
}

/// The result of step `i` in a cycle of the colony: the result of the
/// cycle for the last step, and success for every step before it.
pub open spec fn result_of_step<L: Copy>(
    graphs: Seq<World<L>>,
    result: Result<(), SelectionError>,
    i: int,
) -> Result<(), SelectionError> {
    if i == graphs.len() - 2 {
        result
    } else {
        Ok(())
    }
}

/// Two cycles of colonies that stand alike, on graphs in the same state,
/// agree as far as both have come: after `k` steps the graphs are in the
/// same state, the ants that have acted stand alike, and step `k` has
/// failed in both or in neither.
proof fn cycles_agree_so_far<L: Copy, N: Numerics<L>>(
    before: (Seq<Ant>, Seq<Ant>),
    after: (Seq<Ant>, Seq<Ant>),
    graphs: (Seq<World<L>>, Seq<World<L>>),
    numerics: &N,
    result: (Result<(), SelectionError>, Result<(), SelectionError>),
    k: int,
)
    requires
        single_valued(numerics),
        graphs.0.len() > 0,
        graphs.1.len() > 0,
        graphs.0[0].wf(),
        graphs.0[0].config().select == Selection::Greedy,
        same_colony(before.0, before.1),
        graphs.0[0].same_state(&graphs.1[0]),
        steps(before.0, after.0, graphs.0, numerics, result.0),
        steps(before.1, after.1, graphs.1, numerics, result.1),
        0 <= k <= graphs.0.len() - 1,
        k <= graphs.1.len() - 1,
    ensures
        graphs.0[k].same_state(&graphs.1[k]),
        graphs.0[k].wf(),
        graphs.0[k].config().select == Selection::Greedy,
        forall|i: int| 0 <= i < k ==> (#[trigger] after.0[i]).same_state(&after.1[i]),
        k > 0 ==> {
            let one = result_of_step(graphs.0, result.0, k - 1);
            let other = result_of_step(graphs.1, result.1, k - 1);
            &&& one is Ok <==> other is Ok
            &&& one is Err ==> one == other
        },
    decreases k,
{
    if k > 0 {
        cycles_agree_so_far(before, after, graphs, numerics, result, k - 1);
        let i = k - 1;
        assert(before.0[i].same_state(&before.1[i]));
        assert(acts(
            &before.0[i],
            &after.0[i],
            &graphs.0[i],
            &graphs.0[i + 1],
            numerics,
            result_of_step(graphs.0, result.0, i),
        ));
        assert(acts(
            &before.1[i],
            &after.1[i],
            &graphs.1[i],
            &graphs.1[i + 1],
            numerics,
            result_of_step(graphs.1, result.1, i),
        ));
        step_is_determined(
            (&before.0[i], &before.1[i]),
            (&after.0[i], &after.1[i]),
            (&graphs.0[i], &graphs.1[i]),
            (&graphs.0[i + 1], &graphs.1[i + 1]),
            numerics,
            (result_of_step(graphs.0, result.0, i), result_of_step(graphs.1, result.1, i)),
        );
    }
}

/// Where selection is greedy and the arithmetic gives one answer to one
/// question, a cycle of the colony does one thing: colonies that stand
/// alike, on graphs in the same state, stand alike after it, on graphs
/// in the same state, and the cycle fails in the same way or not at all.
pub proof fn cycle_of_ants_is_determined<L: Copy, N: Numerics<L>>(
    before: (Seq<Ant>, Seq<Ant>),
    after: (Seq<Ant>, Seq<Ant>),
    graphs: (Seq<World<L>>, Seq<World<L>>),
    numerics: &N,
    result: (Result<(), SelectionError>, Result<(), SelectionError>),
)
    requires
        single_valued(numerics),
        graphs.0.len() > 0,
        graphs.1.len() > 0,
        graphs.0[0].wf(),
        graphs.0[0].config().select == Selection::Greedy,
        same_colony(before.0, before.1),
        graphs.0[0].same_state(&graphs.1[0]),
        steps(before.0, after.0, graphs.0, numerics, result.0),
        steps(before.1, after.1, graphs.1, numerics, result.1),
    ensures
        graphs.0.len() == graphs.1.len(),
        graphs.0.last().same_state(&graphs.1.last()),
        graphs.0.last().wf(),
        graphs.0.last().config() == graphs.0[0].config(),
        same_colony(after.0, after.1),
        result.0 is Ok <==> result.1 is Ok,
        result.0 is Err ==> result.0 == result.1,
{
    let done0 = graphs.0.len() - 1;
    let done1 = graphs.1.len() - 1;
    if done0 < done1 {
        cycles_agree_so_far(before, after, graphs, numerics, result, done0);
        assert(false);
    }
    if done1 < done0 {
        cycles_agree_so_far(before, after, graphs, numerics, result, done1);
        assert(false);
    }
    cycles_agree_so_far(before, after, graphs, numerics, result, done0);
    assert forall|i: int| 0 <= i < after.0.len() implies (#[trigger] after.0[i]).same_state(
        &after.1[i],
    ) by {
        if i >= done0 {
            assert(after.0[i] == before.0[i] && after.1[i] == before.1[i]);
            assert(before.0[i].same_state(&before.1[i]));
        }
    }
    config_stays(before.0, after.0, graphs.0, numerics, result.0, done0);
}

/// Through a cycle of the colony the graph keeps its settings.
proof fn config_stays<L: Copy, N: Numerics<L>>(
    before: Seq<Ant>,
    after: Seq<Ant>,
    graphs: Seq<World<L>>,
    numerics: &N,
    result: Result<(), SelectionError>,
    k: int,
)
    requires
        graphs.len() > 0,
        steps(before, after, graphs, numerics, result),
        0 <= k <= graphs.len() - 1,
    ensures
        graphs[k].config() == graphs[0].config(),
    decreases k,
{
    if k > 0 {
        config_stays(before, after, graphs, numerics, result, k - 1);
        let i = k - 1;
        assert(acts(
            &before[i],
            &after[i],
            &graphs[i],
            &graphs[i + 1],
            numerics,
            result_of_step(graphs, result, i),
        ));
    }
}

/// If a graph is in the state of another, that one is in the state of
/// the first.
pub proof fn same_state_is_symmetric<L: Copy>(one: &World<L>, other: &World<L>)
    requires
        one.same_state(other),
    ensures
        other.same_state(one),
{
    assert forall|i: int| 0 <= i < other.points().len() implies {
        &&& (#[trigger] other.points()[i]).id == one.points()[i].id
        &&& other.points()[i].x == one.points()[i].x
        &&& other.points()[i].y == one.points()[i].y
        &&& other.points()[i].initial_food == one.points()[i].initial_food
    } by {
        assert(one.points()[i] == other.points()[i]);
    }
}

/// Graphs in the state of the same graph are in the same state.
pub proof fn same_state_is_transitive<L: Copy>(one: &World<L>, middle: &World<L>, other: &World<L>)
    requires
        one.same_state(middle),
        middle.same_state(other),
    ensures
        one.same_state(other),
{
    assert forall|i: int| 0 <= i < one.points().len() implies {
        &&& (#[trigger] one.points()[i]).id == other.points()[i].id
        &&& one.points()[i].x == other.points()[i].x
        &&& one.points()[i].y == other.points()[i].y
        &&& one.points()[i].initial_food == other.points()[i].initial_food
    } by {
        assert(one.points()[i] == middle.points()[i]);
        assert(middle.points()[i] == other.points()[i]);
    }
}

/// Colonies that stand alike have as many fed ants.
pub proof fn alike_count_alike(one: Seq<Ant>, other: Seq<Ant>)
    requires
        same_colony(one, other),
    ensures
        count_satiated(one) == count_satiated(other),
        total_route_length(one) == total_route_length(other),
        total_routes_count(one) == total_routes_count(other),
        all_satiated(one) == all_satiated(other),
    decreases one.len(),
{
    if one.len() > 0 {
        let a = one.drop_last();
        let b = other.drop_last();
        assert forall|i: int| 0 <= i < a.len() implies (#[trigger] a[i]).same_state(&b[i]) by {
            assert(a[i] == one[i] && b[i] == other[i]);
            assert(one[i].same_state(&other[i]));
        }
        alike_count_alike(a, b);
        assert(one[one.len() - 1].same_state(&other[other.len() - 1]));
    }
    if all_satiated(one) {
        assert forall|i: int| 0 <= i < other.len() implies (#[trigger] other[i]).satiated() by {
            assert(one[i].same_state(&other[i]));
        }
    }
    if all_satiated(other) {
        assert forall|i: int| 0 <= i < one.len() implies (#[trigger] one[i]).satiated() by {
            assert(one[i].same_state(&other[i]));
        }
    }
}

/// Two simulators stand alike: the same settings and schedule, graphs in
/// the same state, colonies that stand alike, and trials that have come
/// as far with the same counts.
pub open spec fn alike<L: Copy>(one: &Simulator<L>, other: &Simulator<L>) -> bool {
    &&& one.config() == other.config()
    &&& one.actions() == other.actions()
    &&& one.world().same_state(&other.world())
    &&& same_colony(one.ant_hill().ants(), other.ant_hill().ants())
    &&& one.phase() == other.phase()
    &&& one.counts() == other.counts()
}

/// Two records say the same.
pub open spec fn same_record<L>(one: &Stats<L>, other: &Stats<L>) -> bool {
    &&& one.completed == other.completed
    &&& one.pheromone_strengths@ == other.pheromone_strengths@
    &&& one.average_route_len == other.average_route_len
    &&& one.ants_per_phase@ == other.ants_per_phase@
    &&& one.average_returns == other.average_returns
}

/// A simulator before the first cycle of a trial: graph and colony as they
/// were built, and nothing counted.
pub open spec fn at_start<L: Copy>(simulator: &Simulator<L>) -> bool {
    &&& simulator.phase() == 0
    &&& simulator.counts().len() == 0
    &&& simulator.world().pristine()
    &&& simulator.ant_hill().fresh()
}

/// Where selection is greedy and the arithmetic gives one answer to one
/// question, a step of a batch does one thing: simulators that stand
/// alike stand alike after it, the step fails in both in the same way or
/// in neither, and where it ends a trial, the two records say the same.
pub proof fn step_of_batch_is_determined<L: Copy, N: Numerics<L>>(
    before: (&Simulator<L>, &Simulator<L>),
    after: (&Simulator<L>, &Simulator<L>),
    numerics: &N,
    result: (Result<(), SelectionError>, Result<(), SelectionError>),
)
    requires
        single_valued(numerics),
        before.0.world().wf(),
        before.0.world().config().select == Selection::Greedy,
        alike(before.0, before.1),
        Simulator::advanced(before.0, after.0, numerics, result.0),
        Simulator::advanced(before.1, after.1, numerics, result.1),
    ensures
        alike(after.0, after.1),
        after.0.world().wf(),
        after.0.world().config().select == Selection::Greedy,
        result.0 is Ok <==> result.1 is Ok,
        result.0 is Err ==> result.0 == result.1,
        before.0.phase() >= before.0.config().cycles ==> same_record(
            &after.0.stats().last(),
            &after.1.stats().last(),
        ),
{
    let b0 = before.0;
    let b1 = before.1;
    let a0 = after.0;
    let a1 = after.1;
    layout_keeps_soundness(&b0.world(), &a0.world());
    same_state_is_symmetric(&b0.world(), &b1.world());
    layout_keeps_soundness(&b0.world(), &b1.world());
    layout_keeps_soundness(&b1.world(), &a1.world());
    if b0.phase() < b0.config().cycles {
        let (graphs0, ants0) = choose|graphs: Seq<World<L>>, ants: Seq<Ant>|
            {
                &&& graphs.len() > 0
                &&& graphs[0] == b0.world()
                &&& #[trigger] steps(b0.ant_hill().ants(), ants, graphs, numerics, result.0)
                &&& match result.0 {
                    Ok(_) => exists|decayed: World<L>|
                        {
                            &&& #[trigger] graphs.last().disperses_to(&decayed, numerics)
                            &&& a0.ant_hill().ants() == ants
                            &&& a0.world().same_layout(&decayed)
                            &&& a0.world().pheromones() == decayed.pheromones()
                            &&& a0.world().points() == scheduled(
                                decayed.points(),
                                b0.actions(),
                                b0.phase(),
                            )
                            &&& a0.phase() == b0.phase() + 1
                            &&& a0.counts() == b0.counts().push(count_satiated(ants) as usize)
                        },
                    Err(_) => {
                        &&& a0.phase() == 0
                        &&& a0.counts().len() == 0
                        &&& a0.world().pristine()
                        &&& a0.ant_hill().fresh()
                    },
                }
            };
        let (graphs1, ants1) = choose|graphs: Seq<World<L>>, ants: Seq<Ant>|
            {
                &&& graphs.len() > 0
                &&& graphs[0] == b1.world()
                &&& #[trigger] steps(b1.ant_hill().ants(), ants, graphs, numerics, result.1)
                &&& match result.1 {
                    Ok(_) => exists|decayed: World<L>|
                        {
                            &&& #[trigger] graphs.last().disperses_to(&decayed, numerics)
                            &&& a1.ant_hill().ants() == ants
                            &&& a1.world().same_layout(&decayed)
                            &&& a1.world().pheromones() == decayed.pheromones()
                            &&& a1.world().points() == scheduled(
                                decayed.points(),
                                b1.actions(),
                                b1.phase(),
                            )
                            &&& a1.phase() == b1.phase() + 1
                            &&& a1.counts() == b1.counts().push(count_satiated(ants) as usize)
                        },
                    Err(_) => {
                        &&& a1.phase() == 0
                        &&& a1.counts().len() == 0
                        &&& a1.world().pristine()
                        &&& a1.ant_hill().fresh()
                    },
                }
            };
        cycle_of_ants_is_determined(
            (b0.ant_hill().ants(), b1.ant_hill().ants()),
            (ants0, ants1),
            (graphs0, graphs1),
            numerics,
            result,
        );
        match result.0 {
            Ok(_) => {
                let d0 = choose|decayed: World<L>|
                    {
                        &&& #[trigger] graphs0.last().disperses_to(&decayed, numerics)
                        &&& a0.ant_hill().ants() == ants0
                        &&& a0.world().same_layout(&decayed)
                        &&& a0.world().pheromones() == decayed.pheromones()
                        &&& a0.world().points() == scheduled(
                            decayed.points(),
                            b0.actions(),
                            b0.phase(),
                        )
                        &&& a0.phase() == b0.phase() + 1
                        &&& a0.counts() == b0.counts().push(count_satiated(ants0) as usize)
                    };
                let d1 = choose|decayed: World<L>|
                    {
                        &&& #[trigger] graphs1.last().disperses_to(&decayed, numerics)
                        &&& a1.ant_hill().ants() == ants1
                        &&& a1.world().same_layout(&decayed)
                        &&& a1.world().pheromones() == decayed.pheromones()
                        &&& a1.world().points() == scheduled(
                            decayed.points(),
                            b1.actions(),
                            b1.phase(),
                        )
                        &&& a1.phase() == b1.phase() + 1
                        &&& a1.counts() == b1.counts().push(count_satiated(ants1) as usize)
                    };
                decay_is_determined(&graphs0.last(), &graphs1.last(), &d0, &d1, numerics);
                alike_count_alike(ants0, ants1);
                let g = a0.world();
                let h = a1.world();
                assert(g.points() == h.points());
                assert(g.pheromones() == h.pheromones());
                assert forall|i: int| 0 <= i < g.points().len() implies {
                    &&& (#[trigger] g.points()[i]).id == h.points()[i].id
                    &&& g.points()[i].x == h.points()[i].x
                    &&& g.points()[i].y == h.points()[i].y
                    &&& g.points()[i].initial_food == h.points()[i].initial_food
                } by {}
            },
            Err(_) => {
                starts_alike_after_failure(before, after);
            },
        }
    } else {
        alike_count_alike(b0.ant_hill().ants(), b1.ant_hill().ants());
        starts_alike_after_failure(before, after);
    }
}

/// Simulators that stood alike and now both stand at the start of a trial,
/// each of the setup that it had, stand alike.
proof fn starts_alike_after_failure<L: Copy>(
    before: (&Simulator<L>, &Simulator<L>),
    after: (&Simulator<L>, &Simulator<L>),
)
    requires
        before.0.world().wf(),
        alike(before.0, before.1),
        after.0.same_setup(before.0),
        after.1.same_setup(before.1),
        at_start(after.0),
        at_start(after.1),
    ensures
        alike(after.0, after.1),
{
    let g = after.0.world();
    let h = after.1.world();
    let x = before.0.world();
    let y = before.1.world();
    assert forall|i: int| 0 <= i < g.points().len() implies g.points()[i] == h.points()[i] by {
        assert(g.points()[i].id == x.points()[i].id);
        assert(h.points()[i].id == y.points()[i].id);
        assert(x.points()[i] == y.points()[i]);
        assert(g.points()[i].food == g.points()[i].initial_food);
        assert(h.points()[i].food == h.points()[i].initial_food);
    }
    assert(g.points() =~= h.points());
    assert forall|i: int| 0 <= i < g.pheromones().len() implies g.pheromones()[i]
        == h.pheromones()[i] by {
        assert(g.pheromones()[i] == g.blank());
        assert(h.pheromones()[i] == h.blank());
    }
    assert(g.pheromones() =~= h.pheromones());
    assert forall|i: int| 0 <= i < g.points().len() implies {
        &&& (#[trigger] g.points()[i]).id == h.points()[i].id
        &&& g.points()[i].x == h.points()[i].x
        &&& g.points()[i].y == h.points()[i].y
        &&& g.points()[i].initial_food == h.points()[i].initial_food
    } by {}
    let a = after.0.ant_hill().ants();
    let b = after.1.ant_hill().ants();
    let c = before.0.ant_hill().ants();
    let d = before.1.ant_hill().ants();
    assert forall|i: int| 0 <= i < a.len() implies (#[trigger] a[i]).same_state(&b[i]) by {
        assert(a[i].fresh() && b[i].fresh());
        assert(a[i].home() == c[i].home());
        assert(b[i].home() == d[i].home());
        assert(c[i].same_state(&d[i]));
    }
    assert(after.0.counts() =~= after.1.counts());
}

/// Where the arithmetic gives one answer to one question, a step of decay
/// does one thing: graphs in the same state are in the same state after it.
pub proof fn decay_is_determined<L: Copy, N: Numerics<L>>(
    one: &World<L>,
    other: &World<L>,
    one_after: &World<L>,
    other_after: &World<L>,
    numerics: &N,
)
    requires
        single_valued(numerics),
        one.wf(),
        one.same_state(other),
        one.disperses_to(one_after, numerics),
        other.disperses_to(other_after, numerics),
    ensures
        one_after.points() == other_after.points(),
        one_after.pheromones() == other_after.pheromones(),
{
    match one.config().dispersion {
        Some(method) => {
            assert forall|i: int| 0 <= i < one_after.pheromones().len() implies one_after.pheromones()[i]
                == other_after.pheromones()[i] by {
                let before = one.pheromones()[i];
                assert(before == other.pheromones()[i]);
                let x = one_after.pheromones()[i];
                let y = other_after.pheromones()[i];
                assert(decayed(numerics, method, before, x, one.blank()));
                assert(decayed(numerics, method, before, y, other.blank()));
                let rx = choose|raw: L| #[trigger]
                    dispersed(numerics, method, before, raw) && {
                        ||| judged(numerics, raw, false) && x == raw
                        ||| judged(numerics, raw, true) && x == one.blank()
                    };
                let ry = choose|raw: L| #[trigger]
                    dispersed(numerics, method, before, raw) && {
                        ||| judged(numerics, raw, false) && y == raw
                        ||| judged(numerics, raw, true) && y == other.blank()
                    };
                assert(rx == ry);
            }
            assert(one_after.pheromones() =~= other_after.pheromones());
        },
        None => {},
    }
}

/// Simulators of the setup of the same simulator have the same setup.
pub proof fn same_setup_is_transitive<L: Copy>(
    one: &Simulator<L>,
    middle: &Simulator<L>,
    other: &Simulator<L>,
)
    requires
        one.same_setup(middle),
        middle.same_setup(other),
    ensures
        one.same_setup(other),
{
    let g = one.world();
    let m = middle.world();
    let h = other.world();
    assert forall|i: int| 0 <= i < g.points().len() implies {
        &&& (#[trigger] g.points()[i]).id == h.points()[i].id
        &&& g.points()[i].x == h.points()[i].x
        &&& g.points()[i].y == h.points()[i].y
        &&& g.points()[i].initial_food == h.points()[i].initial_food
    } by {
        assert(g.points()[i].id == m.points()[i].id);
        assert(m.points()[i].id == h.points()[i].id);
    }
    let a = one.ant_hill().ants();
    let b = middle.ant_hill().ants();
    let c = other.ant_hill().ants();
    assert forall|i: int| 0 <= i < a.len() implies (#[trigger] a[i]).home() == c[i].home() by {
        assert(a[i].home() == b[i].home());
        assert(b[i].home() == c[i].home());
    }
}

/// Through a batch the setup stays: every state of a trace has the setup
/// of the first, a sound graph, and the settings of the first.
pub proof fn setup_stays<L: Copy, N: Numerics<L>>(
    trace: Seq<Simulator<L>>,
    numerics: &N,
    result: Result<(), SelectionError>,
    k: int,
)
    requires
        Simulator::traced(trace, numerics, result),
        trace[0].world().wf(),
        0 <= k < trace.len(),
    ensures
        trace[k].same_setup(&trace[0]),
        trace[k].world().wf(),
        trace[k].world().config() == trace[0].world().config(),
        trace[k].config() == trace[0].config(),
    decreases k,
{
    if k > 0 {
        setup_stays(trace, numerics, result, k - 1);
        assert(Simulator::step_at(trace, k - 1, numerics, result));
        same_setup_is_transitive(&trace[k], &trace[k - 1], &trace[0]);
        layout_keeps_soundness(&trace[0].world(), &trace[k].world());
    } else {
        let g = trace[0].world();
        assert forall|i: int| 0 <= i < g.points().len() implies {
            &&& (#[trigger] g.points()[i]).id == g.points()[i].id
        } by {}
    }
}

/// Through a batch the cycles of a trial are counted up from its start:
/// a state that has run `p` cycles stands `p` steps behind a state at the
/// start of a trial, and no trial runs more cycles than the settings say.
pub proof fn phases_count_up<L: Copy, N: Numerics<L>>(
    trace: Seq<Simulator<L>>,
    numerics: &N,
    result: Result<(), SelectionError>,
    k: int,
)
    requires
        Simulator::traced(trace, numerics, result),
        trace[0].world().wf(),
        at_start(&trace[0]),
        0 <= k < trace.len(),
    ensures
        trace[k].phase() <= trace[0].config().cycles || trace[k].phase() == 0,
        k - trace[k].phase() >= 0,
        at_start(&trace[k - trace[k].phase()]),
        forall|m: int|
            k - trace[k].phase() <= m <= k ==> (#[trigger] trace[m]).phase() == m - (k
                - trace[k].phase()),
    decreases k,
{
    if k > 0 {
        phases_count_up(trace, numerics, result, k - 1);
        setup_stays(trace, numerics, result, k - 1);
        assert(Simulator::step_at(trace, k - 1, numerics, result));
    }
}

/// Where selection is greedy and the arithmetic gives one answer to one
/// question, a batch repeats itself: from two states of a trace that
/// stand alike, as many steps lead to states that stand alike, and where
/// the last of these steps ends a trial, the two records say the same.
pub proof fn runs_repeat<L: Copy, N: Numerics<L>>(
    trace: Seq<Simulator<L>>,
    numerics: &N,
    result: Result<(), SelectionError>,
    i: int,
    j: int,
    d: int,
)
    requires
        single_valued(numerics),
        Simulator::traced(trace, numerics, result),
        trace[0].world().wf(),
        trace[0].world().config().select == Selection::Greedy,
        0 <= i,
        0 <= j,
        0 <= d,
        i + d < trace.len(),
        j + d < trace.len(),
        alike(&trace[i], &trace[j]),
    ensures
        alike(&trace[i + d], &trace[j + d]),
        d > 0 && trace[i + d - 1].phase() >= trace[i + d - 1].config().cycles ==> same_record(
            &trace[i + d].stats().last(),
            &trace[j + d].stats().last(),
        ),
    decreases d,
{
    if d > 0 {
        runs_repeat(trace, numerics, result, i, j, d - 1);
        let x = i + d - 1;
        let y = j + d - 1;
        setup_stays(trace, numerics, result, x);
        assert(Simulator::step_at(trace, x, numerics, result));
        assert(Simulator::step_at(trace, y, numerics, result));
        let rx = if x == trace.len() - 2 {
            result
        } else {
            Ok(())
        };
        let ry = if y == trace.len() - 2 {
            result
        } else {
            Ok(())
        };
        step_of_batch_is_determined(
            (&trace[x], &trace[y]),
            (&trace[x + 1], &trace[y + 1]),
            numerics,
            (rx, ry),
        );
    }
}

/// Where selection is greedy and the arithmetic gives one answer to one
/// question, the trials of a batch leave the same record: of any two
/// steps of a trace that end a trial, the records say the same.
pub proof fn trials_leave_the_same_record<L: Copy, N: Numerics<L>>(
    trace: Seq<Simulator<L>>,
    numerics: &N,
    result: Result<(), SelectionError>,
    i: int,
    j: int,
)
    requires
        single_valued(numerics),
        Simulator::traced(trace, numerics, result),
        trace[0].world().wf(),
        trace[0].world().config() == trace[0].config(),
        trace[0].config().select == Selection::Greedy,
        at_start(&trace[0]),
        0 <= i < trace.len() - 1,
        0 <= j < trace.len() - 1,
        trace[i].phase() >= trace[i].config().cycles,
        trace[j].phase() >= trace[j].config().cycles,
    ensures
        same_record(&trace[i + 1].stats().last(), &trace[j + 1].stats().last()),
{
    phases_count_up(trace, numerics, result, i);
    phases_count_up(trace, numerics, result, j);
    setup_stays(trace, numerics, result, i);
    setup_stays(trace, numerics, result, j);
    let cycles = trace[0].config().cycles as int;
    let si = i - trace[i].phase();
    let sj = j - trace[j].phase();
    setup_stays(trace, numerics, result, si);
    setup_stays(trace, numerics, result, sj);
    starts_alike_from(&trace[0], &trace[si], &trace[sj]);
    assert(trace[i].phase() == trace[j].phase());
    runs_repeat(trace, numerics, result, si, sj, trace[i].phase() + 1);
}

/// Two simulators of the setup of the same simulator that both stand
/// before the first cycle of a trial stand alike.
pub proof fn starts_alike_from<L: Copy>(
    base: &Simulator<L>,
    one: &Simulator<L>,
    other: &Simulator<L>,
)
    requires
        one.same_setup(base),
        other.same_setup(base),
        at_start(one),
        at_start(other),
    ensures
        alike(one, other),
{
    let g = one.world();
    let h = other.world();
    let x = base.world();
    assert forall|i: int| 0 <= i < g.points().len() implies g.points()[i] == h.points()[i] by {
        assert(g.points()[i].id == x.points()[i].id);
        assert(h.points()[i].id == x.points()[i].id);
        assert(g.points()[i].food == g.points()[i].initial_food);
        assert(h.points()[i].food == h.points()[i].initial_food);
    }
    assert(g.points() =~= h.points());
    assert forall|i: int| 0 <= i < g.pheromones().len() implies g.pheromones()[i]
        == h.pheromones()[i] by {
        assert(g.pheromones()[i] == g.blank());
        assert(h.pheromones()[i] == h.blank());
    }
    assert(g.pheromones() =~= h.pheromones());
    assert forall|i: int| 0 <= i < g.points().len() implies {
        &&& (#[trigger] g.points()[i]).id == h.points()[i].id
        &&& g.points()[i].x == h.points()[i].x
        &&& g.points()[i].y == h.points()[i].y
        &&& g.points()[i].initial_food == h.points()[i].initial_food
    } by {}
    let a = one.ant_hill().ants();
    let b = other.ant_hill().ants();
    let c = base.ant_hill().ants();
    assert forall|i: int| 0 <= i < a.len() implies (#[trigger] a[i]).same_state(&b[i]) by {
        assert(a[i].fresh() && b[i].fresh());
        assert(a[i].home() == c[i].home());
        assert(b[i].home() == c[i].home());
    }
    assert(one.counts() =~= other.counts());
}

/// Record `t` of a state of a trace was left by the step `i` that ended
/// its trial.
pub open spec fn left_by<L: Copy>(trace: Seq<Simulator<L>>, k: int, t: int, i: int) -> bool {
    &&& 0 <= i < k
    &&& trace[i].phase() >= trace[i].config().cycles
    &&& trace[k].stats()[t] == trace[i + 1].stats().last()
}

/// Every record that a batch has added was left by a step of the trace
/// that ended a trial.
pub proof fn record_has_its_trial<L: Copy, N: Numerics<L>>(
    trace: Seq<Simulator<L>>,
    numerics: &N,
    result: Result<(), SelectionError>,
    k: int,
    t: int,
)
    requires
        Simulator::traced(trace, numerics, result),
        0 <= k < trace.len(),
        trace[0].stats().len() <= t < trace[k].stats().len(),
    ensures
        exists|i: int| #[trigger] left_by(trace, k, t, i),
    decreases k,
{
    if k > 0 {
        assert(Simulator::step_at(trace, k - 1, numerics, result));
        if trace[k - 1].phase() < trace[k - 1].config().cycles {
            record_has_its_trial(trace, numerics, result, k - 1, t);
            let i = choose|i: int| #[trigger] left_by(trace, k - 1, t, i);
            assert(left_by(trace, k, t, i));
        } else if t < trace[k - 1].stats().len() {
            record_has_its_trial(trace, numerics, result, k - 1, t);
            let i = choose|i: int| #[trigger] left_by(trace, k - 1, t, i);
            assert(trace[k].stats()[t] == trace[k - 1].stats()[t]);
            assert(left_by(trace, k, t, i));
        } else {
            assert(left_by(trace, k, t, k - 1));
        }
    }
}

/// Where selection is greedy and the arithmetic gives one answer to one
/// question, all the records that a batch adds say the same.
pub proof fn batch_leaves_equal_records<L: Copy, N: Numerics<L>>(
    trace: Seq<Simulator<L>>,
    numerics: &N,
    result: Result<(), SelectionError>,
    one: int,
    other: int,
)
    requires
        single_valued(numerics),
        Simulator::traced(trace, numerics, result),
        trace[0].world().wf(),
        trace[0].world().config() == trace[0].config(),
        trace[0].config().select == Selection::Greedy,
        at_start(&trace[0]),
        trace[0].stats().len() <= one < trace.last().stats().len(),
        trace[0].stats().len() <= other < trace.last().stats().len(),
    ensures
        same_record(&trace.last().stats()[one], &trace.last().stats()[other]),
{
    let k = trace.len() - 1;
    record_has_its_trial(trace, numerics, result, k, one);
    record_has_its_trial(trace, numerics, result, k, other);
    let i = choose|i: int| #[trigger] left_by(trace, k, one, i);
    let j = choose|j: int| #[trigger] left_by(trace, k, other, j);
    trials_leave_the_same_record(trace, numerics, result, i, j);
}

} // verus!
