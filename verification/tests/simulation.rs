use ant_colony::ant::Ant;
use ant_colony::anthill::{AntHill, Average};
use ant_colony::numerics::Numerics;
use ant_colony::simul::Simulator;
use ant_colony::stats::{total_stats, Stats};
use ant_colony::tech::{
    Action, Config, Dispersion, GraphInvariantViolation, Magnitude, Metric, PointInfo, Preference,
    Selection, SelectionError,
};
use ant_colony::ranking::rank;
use ant_colony::utils::distance::Length;
use ant_colony::utils::Auxil;
use ant_colony::world::World;

/// Pheromone as floating-point numbers, with the formulas of the simulation.
struct Floats {
    strength: f64,
    factor: f64,
}

fn key(score: f64) -> i64 {
    let bits = score.to_bits() as i64;
    bits ^ ((((bits >> 63) as u64) >> 1) as i64)
}

fn score_of(key: i64) -> f64 {
    let bits = key ^ ((((key >> 63) as u64) >> 1) as i64);
    f64::from_bits(bits as u64)
}

fn as_number(distance: Length) -> f64 {
    match distance {
        Length::Whole(n) => n as f64,
        Length::Root(n) => (n as f64).sqrt(),
    }
}

impl Numerics<f64> for Floats {
    fn deposit(&self, level: &f64) -> f64 {
        level + self.strength
    }

    fn linear(&self, level: &f64) -> f64 {
        level - self.factor
    }

    fn exponential(&self, level: &f64) -> f64 {
        level / self.factor
    }

    fn relative(&self, level: &f64) -> f64 {
        level * (1.0 - self.factor)
    }

    fn is_negative(&self, level: &f64) -> bool {
        !(*level >= 0.0)
    }

    fn distance(&self, distance: Length) -> i64 {
        key(1.0 / as_number(distance))
    }

    fn pheromone(&self, level: &f64) -> i64 {
        key(level + 1.0)
    }

    fn food(&self, food: u32) -> i64 {
        key(food as f64 + 1.0)
    }

    fn phero_dist(&self, level: &f64, distance: Length) -> i64 {
        key((level + 1.0) / as_number(distance))
    }

    fn food_dist(&self, food: u32, distance: Length) -> i64 {
        key((food as f64 + 1.0) / as_number(distance))
    }

    fn phero_food(&self, level: &f64, food: u32) -> i64 {
        key((level + 1.0) * (food as f64 + 1.0))
    }

    fn phero_food_dist(&self, level: &f64, food: u32, distance: Length) -> i64 {
        key((level + 1.0) * (food as f64 + 1.0) / as_number(distance))
    }

    fn wheel(&self, keys: &Vec<i64>) -> Vec<f64> {
        let sum: f64 = keys.iter().map(|k| score_of(*k)).sum();
        keys.iter().map(|k| score_of(*k) / sum).collect()
    }

    fn chance(&self) -> f64 {
        fastrand::f64()
    }

    fn add(&self, left: &f64, right: &f64) -> f64 {
        left + right
    }

    fn less(&self, left: &f64, right: &f64) -> bool {
        left < right
    }
}

fn config(select: Selection) -> Config {
    Config {
        cycles: 1,
        ants: 1,
        pheromone: Magnitude::One,
        decision: 1,
        rate: 0,
        returns: false,
        select,
        preference: Preference::PD,
        metric: Metric::Euclidean,
        dispersion: None,
        factor: Magnitude::Unset,
        seed: None,
    }
}

fn two_points() -> Vec<PointInfo> {
    vec![PointInfo::Empty('a', 0, 0), PointInfo::Food('b', 5, 0, 10)]
}

fn unit() -> Floats {
    Floats { strength: 1.0, factor: f64::NAN }
}

#[test]
fn one_ant_reaches_the_food_in_one_cycle() {
    let settings = config(Selection::Greedy);
    let mut world = World::new(two_points(), &settings, 0.0).unwrap();
    let mut hill = AntHill::new(&world, 1);
    assert_eq!(hill.action(&mut world, &unit()), Ok(()));
    let ant = &hill.get_ants()[0];
    assert_eq!(ant.get_route(), &vec!['a', 'b']);
    assert_eq!(ant.get_route_length(), 2);
    assert!(ant.is_satiated());
    assert_eq!(ant.get_routes_count(), 0);
    assert_eq!(world.get_pheromones_per_point(), vec![0.0, 1.0]);
    assert_eq!(world.get_points()[1].food, 10);
    assert_eq!(hill.get_satiated_ants_count(), 1);
    assert!(hill.has_all_ants_satiated());
}

#[test]
fn one_trial_leaves_one_record() {
    let mut simulator =
        Simulator::new(config(Selection::Greedy), two_points(), vec![], 1, 0.0).unwrap();
    assert_eq!(simulator.simulate(&unit()), Ok(()));
    let expected = Stats {
        completed: true,
        pheromone_strengths: vec![0.0, 1.0],
        average_route_len: Average { total: 2, count: 1 },
        ants_per_phase: vec![1],
        average_returns: Average { total: 0, count: 1 },
    };
    assert_eq!(simulator.get_stats(), &vec![expected]);
    assert_eq!(simulator.get_world().get_pheromones_per_point(), vec![0.0, 0.0]);
    assert_eq!(simulator.get_ant_hill().get_ants()[0].get_route(), &vec!['a']);
    assert!(!simulator.get_ant_hill().get_ants()[0].is_satiated());
}

#[test]
fn an_ant_that_eats_leaves_the_rest() {
    let mut settings = config(Selection::Greedy);
    settings.rate = 5;
    let mut world = World::new(two_points(), &settings, 0.0).unwrap();
    let mut hill = AntHill::new(&world, 1);
    assert_eq!(hill.action(&mut world, &unit()), Ok(()));
    assert_eq!(world.get_points()[1].food, 5);
    assert!(world.is_foodsource(&'b'));
    assert!(world.has_foodsource());
    assert_eq!(world.get_pheromones_per_point(), vec![0.0, 1.0]);
}

#[test]
fn identical_trials_average_to_one_trial() {
    let mut settings = config(Selection::Greedy);
    settings.cycles = 4;
    settings.ants = 3;
    settings.decision = 2;
    let grid = vec![
        PointInfo::Empty('a', 0, 0),
        PointInfo::Empty('b', 2, 0),
        PointInfo::Empty('c', 4, 1),
        PointInfo::Food('d', 6, 0, 9),
    ];
    let mut single = Simulator::new(settings, grid.clone(), vec![], 1, 0.0).unwrap();
    assert_eq!(single.simulate(&unit()), Ok(()));
    let mut batch = Simulator::new(settings, grid, vec![], 3, 0.0).unwrap();
    assert_eq!(batch.simulate(&unit()), Ok(()));
    let one = &single.get_stats()[0];
    assert_eq!(batch.get_stats().len(), 3);
    for stats in batch.get_stats() {
        assert_eq!(stats, one);
    }
    let totals = batch.get_total_stats();
    assert_eq!(totals.trials, 3);
    assert_eq!(totals.completed, if one.completed { 3 } else { 0 });
    assert_eq!(totals.ants_per_phase.len(), 4);
    for phase in 0..4 {
        assert_eq!(totals.ants_per_phase[phase], 3 * one.ants_per_phase[phase] as u128);
        let average = totals.ants_per_phase[phase] as f64 / totals.trials as f64;
        assert_eq!(average, one.ants_per_phase[phase] as f64);
    }
    assert_eq!(one.ants_per_phase, vec![0, 0, 3, 3]);
    assert_eq!(one.pheromone_strengths, vec![0.0, 3.0, 3.0, 3.0]);
    assert_eq!(one.average_route_len, Average { total: 12, count: 3 });
}

#[test]
fn an_eaten_up_graph_stops_the_next_ant() {
    let mut settings = config(Selection::Greedy);
    settings.rate = 10;
    settings.ants = 2;
    let mut world = World::new(two_points(), &settings, 0.0).unwrap();
    let mut hill = AntHill::new(&world, 2);
    let stopped = Err(SelectionError::GraphInvariantViolation(
        GraphInvariantViolation::NoFoodsource,
    ));
    assert_eq!(hill.action(&mut world, &unit()), stopped);
    assert_eq!(world.get_points()[1].food, 0);
    assert!(!world.is_foodsource(&'b'));
    assert!(!world.has_foodsource());
    assert!(hill.get_ants()[0].is_satiated());
    assert_eq!(hill.get_ants()[1].get_route(), &vec!['a']);
    assert_eq!(
        world.get_new_position(&vec!['a'], &unit()),
        Err(SelectionError::GraphInvariantViolation(GraphInvariantViolation::NoFoodsource))
    );

    let mut simulator = Simulator::new(settings, two_points(), vec![], 2, 0.0).unwrap();
    assert_eq!(simulator.simulate(&unit()), Err(SelectionError::GraphInvariantViolation(
        GraphInvariantViolation::NoFoodsource,
    )));
    assert_eq!(simulator.get_stats().len(), 0);
    assert_eq!(simulator.get_world().get_points()[1].food, 10);
    assert_eq!(simulator.get_ant_hill().get_satiated_ants_count(), 0);
}

#[test]
fn a_scheduled_action_brings_food_back() {
    let mut settings = config(Selection::Greedy);
    settings.rate = 10;
    settings.ants = 2;
    settings.cycles = 2;
    settings.returns = true;
    let grid = vec![PointInfo::Empty('a', 0, 0), PointInfo::Food('b', 5, 0, 20)];
    let actions = vec![Action::new(0, 'b', 30)];
    let mut simulator = Simulator::new(settings, grid, actions, 1, 0.0).unwrap();
    assert_eq!(simulator.simulate(&unit()), Ok(()));
    let stats = &simulator.get_stats()[0];
    assert_eq!(stats.ants_per_phase, vec![0, 0]);
    assert!(!stats.completed);
    assert_eq!(stats.average_returns, Average { total: 4, count: 2 });
    assert_eq!(stats.average_route_len, Average { total: 2, count: 2 });
    assert_eq!(stats.pheromone_strengths, vec![0.0, 4.0]);
}

#[test]
fn the_route_starts_at_the_anthill_whatever_happens() {
    let mut settings = config(Selection::Greedy);
    settings.returns = true;
    settings.decision = 2;
    let grid = vec![
        PointInfo::Empty('h', 1, 1),
        PointInfo::Empty('m', 3, 1),
        PointInfo::Food('f', 5, 1, 4),
    ];
    let mut world = World::new(grid, &settings, 0.0).unwrap();
    let mut ant = Ant::new(world.get_anthill());
    assert_eq!(ant.get_route(), &vec!['h']);
    for _ in 0..6 {
        assert_eq!(ant.action(&mut world, &unit()), Ok(()));
        assert_eq!(ant.get_route()[0], 'h');
    }
    assert_eq!(ant.get_routes_count(), 3);
    ant.reset();
    assert_eq!(ant.get_route(), &vec!['h']);
    assert_eq!(ant.get_routes_count(), 0);
    assert!(!ant.is_satiated());
}

#[test]
fn fed_ants_stay_fed_where_none_returns() {
    let mut settings = config(Selection::Roulette);
    settings.cycles = 12;
    settings.ants = 40;
    settings.decision = 3;
    settings.seed = Some(11);
    let mut simulator =
        Simulator::new(settings, ant_colony::consts::grid(), vec![], 5, 0.0).unwrap();
    let outcome = simulator.simulate(&unit());
    assert!(outcome == Ok(()) || outcome == Err(SelectionError::StuckSelection));
    for stats in simulator.get_stats() {
        assert_eq!(stats.ants_per_phase.len(), 12);
        assert_eq!(stats.pheromone_strengths.len(), 7);
        for pair in stats.ants_per_phase.windows(2) {
            assert!(pair[0] <= pair[1]);
        }
        assert!(stats.ants_per_phase[11] <= 40);
        assert_eq!(stats.completed, stats.ants_per_phase[11] == 40);
        assert_eq!(stats.average_returns, Average { total: 0, count: 40 });
    }
}

#[test]
fn the_same_seed_gives_the_same_run() {
    let mut settings = config(Selection::Random);
    settings.cycles = 6;
    settings.ants = 10;
    settings.decision = 3;
    settings.seed = Some(2024);
    let mut first = Simulator::new(settings, ant_colony::consts::grid(), vec![], 2, 0.0).unwrap();
    let first_outcome = first.simulate(&unit());
    let mut second = Simulator::new(settings, ant_colony::consts::grid(), vec![], 2, 0.0).unwrap();
    let second_outcome = second.simulate(&unit());
    assert_eq!(first_outcome, second_outcome);
    assert_eq!(first.get_stats(), second.get_stats());
}

#[test]
fn a_random_pick_is_one_of_the_best() {
    let mut settings = config(Selection::Random);
    settings.decision = 3;
    let world = World::new(ant_colony::consts::grid(), &settings, 0.0).unwrap();
    let mut seen = [false; 3];
    for _ in 0..1000 {
        let pick = world.select_randomly();
        assert!(pick < 3);
        seen[pick] = true;
    }
    assert_eq!(seen, [true; 3]);
    assert_eq!(world.select_greedy(), 0);
}

#[test]
fn decay_is_applied_once_per_cycle() {
    let mut settings = config(Selection::Greedy);
    settings.cycles = 3;
    settings.dispersion = Some(Dispersion::Linear);
    settings.factor = Magnitude::Fraction;
    let mut simulator = Simulator::new(settings, two_points(), vec![], 1, 0.0).unwrap();
    let floats = Floats { strength: 2.0, factor: 0.5 };
    assert_eq!(simulator.simulate(&floats), Ok(()));
    assert_eq!(simulator.get_stats()[0].pheromone_strengths, vec![0.0, 0.5]);
    assert_eq!(simulator.get_stats()[0].ants_per_phase, vec![1, 1, 1]);
}

fn decayed(method: Dispersion, factor: f64, strength: f64) -> f64 {
    let mut settings = config(Selection::Greedy);
    settings.dispersion = Some(method);
    settings.factor = Magnitude::Fraction;
    let mut world = World::new(two_points(), &settings, 0.0).unwrap();
    let floats = Floats { strength, factor };
    world.cover_route(&vec!['a', 'b'], &floats);
    assert_eq!(world.get_pheromones_per_point(), vec![0.0, strength]);
    world.disperse_pheromons(&floats);
    let levels = world.get_pheromones_per_point();
    assert_eq!(levels[0].to_bits(), 0.0f64.to_bits());
    levels[1]
}

#[test]
fn linear_decay_stops_at_zero() {
    assert_eq!(decayed(Dispersion::Linear, 0.5, 2.0), 1.5);
    assert_eq!(decayed(Dispersion::Linear, 3.0, 2.0).to_bits(), 0.0f64.to_bits());
    assert_eq!(decayed(Dispersion::Linear, 0.0, 2.0), 2.0);
    assert_eq!(decayed(Dispersion::Linear, 2.0, 2.0), 0.0);
}

#[test]
fn no_decay_leaves_a_level_below_zero() {
    let cases = [
        (Dispersion::Linear, vec![0.0, 0.25, 1.0, 2.0, 7.5, f64::MAX, f64::INFINITY]),
        (Dispersion::Exponential, vec![1.0, 1.5, 2.0, 1e9, f64::INFINITY]),
        (Dispersion::Relative, vec![0.0, 0.1, 0.5, 0.999, 1.0]),
    ];
    for (method, factors) in cases {
        for factor in factors {
            for strength in [f64::MIN_POSITIVE, 0.3, 1.0, 2.0, 1e300] {
                let level = decayed(method, factor, strength);
                assert!(level >= 0.0, "{:?} {} {}", method, factor, strength);
            }
        }
    }
    assert_eq!(decayed(Dispersion::Exponential, 4.0, 2.0), 0.5);
    assert_eq!(decayed(Dispersion::Relative, 0.25, 2.0), 1.5);
    assert_eq!(decayed(Dispersion::Relative, 1.0, 2.0), 0.0);
}

#[test]
fn a_level_that_is_no_number_becomes_blank() {
    assert_eq!(decayed(Dispersion::Linear, f64::NAN, 2.0).to_bits(), 0.0f64.to_bits());
    assert_eq!(decayed(Dispersion::Linear, f64::INFINITY, f64::INFINITY).to_bits(), 0.0f64.to_bits());
}

#[test]
fn a_trial_can_be_run_cycle_by_cycle() {
    let mut settings = config(Selection::Greedy);
    settings.cycles = 3;
    settings.ants = 2;
    settings.decision = 2;
    let grid = vec![
        PointInfo::Empty('a', 0, 0),
        PointInfo::Empty('b', 2, 0),
        PointInfo::Food('c', 4, 0, 9),
    ];
    let mut stepped = Simulator::new(settings, grid.clone(), vec![], 1, 0.0).unwrap();
    assert_eq!(stepped.get_phase(), 0);
    assert!(!stepped.finish_trial());
    assert_eq!(stepped.run_cycle(&unit()), Ok(()));
    assert_eq!(stepped.get_phase(), 1);
    assert_eq!(stepped.get_ant_hill().get_ants()[1].get_route(), &vec!['a', 'b']);
    assert_eq!(stepped.get_ant_hill().get_satiated_ants_count(), 0);
    assert!(!stepped.finish_trial());
    assert_eq!(stepped.get_stats().len(), 0);
    assert_eq!(stepped.run_cycle(&unit()), Ok(()));
    assert_eq!(stepped.get_world().get_pheromones_per_point(), vec![0.0, 2.0, 2.0]);
    assert_eq!(stepped.get_ant_hill().get_satiated_ants_count(), 2);
    assert_eq!(stepped.run_cycle(&unit()), Ok(()));
    assert_eq!(stepped.get_phase(), 3);
    assert_eq!(stepped.run_cycle(&unit()), Ok(()));
    assert_eq!(stepped.get_phase(), 3);
    assert!(stepped.finish_trial());
    assert_eq!(stepped.get_phase(), 0);
    assert_eq!(stepped.get_world().get_pheromones_per_point(), vec![0.0, 0.0, 0.0]);

    let mut whole = Simulator::new(settings, grid, vec![], 1, 0.0).unwrap();
    assert_eq!(whole.simulate(&unit()), Ok(()));
    assert_eq!(stepped.get_stats(), whole.get_stats());
    assert_eq!(whole.get_stats()[0].ants_per_phase, vec![0, 2, 2]);
}

#[test]
fn a_batch_gives_up_a_trial_under_way() {
    let mut settings = config(Selection::Greedy);
    settings.cycles = 2;
    let mut simulator = Simulator::new(settings, two_points(), vec![], 2, 0.0).unwrap();
    assert_eq!(simulator.run_cycle(&unit()), Ok(()));
    assert_eq!(simulator.get_phase(), 1);
    assert_eq!(simulator.simulate(&unit()), Ok(()));
    assert_eq!(simulator.get_phase(), 0);
    assert_eq!(simulator.get_stats().len(), 2);
    assert_eq!(simulator.get_stats()[0].ants_per_phase, vec![1, 1]);
    assert_eq!(simulator.get_stats()[0], simulator.get_stats()[1]);
}

#[test]
fn a_cycle_that_fails_gives_up_the_trial() {
    let mut settings = config(Selection::Greedy);
    settings.cycles = 3;
    settings.ants = 1;
    settings.rate = 10;
    settings.returns = true;
    let mut simulator = Simulator::new(settings, two_points(), vec![], 1, 0.0).unwrap();
    assert_eq!(simulator.run_cycle(&unit()), Ok(()));
    assert_eq!(simulator.get_world().get_points()[1].food, 0);
    assert_eq!(
        simulator.run_cycle(&unit()),
        Err(SelectionError::GraphInvariantViolation(GraphInvariantViolation::NoFoodsource))
    );
    assert_eq!(simulator.get_phase(), 0);
    assert_eq!(simulator.get_world().get_points()[1].food, 10);
    assert_eq!(simulator.get_world().get_pheromones_per_point(), vec![0.0, 0.0]);
    assert_eq!(simulator.get_ant_hill().get_ants()[0].get_routes_count(), 0);
    assert_eq!(simulator.get_stats().len(), 0);
}

#[test]
fn each_preference_asks_its_own_formula() {
    let floats = Floats { strength: 3.0, factor: 0.0 };
    let cases = [
        (Preference::Distance, 1.0 / 5.0),
        (Preference::Pheromone, 4.0),
        (Preference::Food, 11.0),
        (Preference::PD, 4.0 / 5.0),
        (Preference::FD, 11.0 / 5.0),
        (Preference::PF, 44.0),
        (Preference::PFD, 44.0 / 5.0),
    ];
    for (preference, expected) in cases {
        let mut settings = config(Selection::Greedy);
        settings.preference = preference;
        let mut world = World::new(two_points(), &settings, 0.0).unwrap();
        world.cover_route(&vec!['a', 'b'], &floats);
        let auxils = world.appraise(&vec!['a'], 0, &floats);
        assert_eq!(auxils[0].ratio, ant_colony::consts::bias::MINUTE);
        assert_eq!(score_of(auxils[0].ratio), f64::MIN_POSITIVE);
        assert_eq!(score_of(auxils[1].ratio), expected, "{:?}", preference);
        assert_eq!(
            ant_colony::numerics::score(&floats, preference, &3.0, 10, Length::Root(25)),
            key(expected)
        );
    }
}

#[test]
fn each_metric_measures_its_own_way() {
    let floats = unit();
    for (metric, expected) in [
        (Metric::Chebyshev, 1.0 / 4.0),
        (Metric::Euclidean, 1.0 / 5.0),
        (Metric::Taxicab, 1.0 / 7.0),
    ] {
        let mut settings = config(Selection::Greedy);
        settings.metric = metric;
        settings.preference = Preference::Distance;
        let grid = vec![PointInfo::Empty('a', 1, 1), PointInfo::Food('b', 4, 5, 1)];
        let world = World::new(grid, &settings, 0.0).unwrap();
        let auxils = world.appraise(&vec!['a'], 0, &floats);
        assert_eq!(score_of(auxils[1].ratio), expected);
    }
}

#[test]
fn keys_rank_as_scores_do() {
    let scores = [0.0, f64::MIN_POSITIVE, 1e-300, 0.2, 1.0, 1.5, 1e300, f64::INFINITY];
    for pair in scores.windows(2) {
        assert!(key(pair[0]) < key(pair[1]));
        assert_eq!(score_of(key(pair[0])), pair[0]);
    }
    assert!(key(-1.0) < key(0.0));
    assert_eq!(key(f64::MIN_POSITIVE), ant_colony::consts::bias::MINUTE);
}

#[test]
fn the_wheel_stops_on_a_candidate_as_often_as_its_share_says() {
    let weights = [1.0, 4.0, 2.5, 0.5, 2.0];
    let auxils: Vec<Auxil> = "abcde"
        .chars()
        .zip(weights)
        .map(|(id, weight)| Auxil::new(id, key(weight)))
        .collect();
    let order = rank(&auxils);
    assert_eq!(order, vec![1, 2, 4, 0, 3]);
    let mut settings = config(Selection::Roulette);
    settings.decision = 4;
    let grid = vec![
        PointInfo::Empty('a', 0, 0),
        PointInfo::Food('b', 1, 0, 1),
        PointInfo::Empty('c', 2, 0),
        PointInfo::Empty('d', 3, 0),
        PointInfo::Empty('e', 4, 0),
    ];
    let world = World::new(grid, &settings, 0.0).unwrap();
    let floats = unit();
    fastrand::seed(7);
    let draws = 20_000;
    let mut counts = [0usize; 5];
    for _ in 0..draws {
        let id = world.select_position(&auxils, &order, &vec![], &floats).unwrap();
        counts[id as usize - 'a' as usize] += 1;
    }
    let sum = 4.0 + 2.5 + 2.0 + 1.0;
    for (i, weight) in weights.iter().enumerate() {
        let share = if i == 3 { 0.0 } else { weight / sum };
        let frequency = counts[i] as f64 / draws as f64;
        assert!((frequency - share).abs() < 0.02, "{} {} {}", i, frequency, share);
    }
    assert_eq!(counts[3], 0);
}

#[test]
fn the_wheel_stops_on_the_first_share_that_exceeds_the_chance() {
    struct Fixed(f64);
    impl Numerics<f64> for Fixed {
        fn deposit(&self, level: &f64) -> f64 {
            *level
        }
        fn linear(&self, level: &f64) -> f64 {
            *level
        }
        fn exponential(&self, level: &f64) -> f64 {
            *level
        }
        fn relative(&self, level: &f64) -> f64 {
            *level
        }
        fn is_negative(&self, _level: &f64) -> bool {
            false
        }
        fn distance(&self, _distance: Length) -> i64 {
            0
        }
        fn pheromone(&self, _level: &f64) -> i64 {
            0
        }
        fn food(&self, _food: u32) -> i64 {
            0
        }
        fn phero_dist(&self, _level: &f64, _distance: Length) -> i64 {
            0
        }
        fn food_dist(&self, _food: u32, _distance: Length) -> i64 {
            0
        }
        fn phero_food(&self, _level: &f64, _food: u32) -> i64 {
            0
        }
        fn phero_food_dist(&self, _level: &f64, _food: u32, _distance: Length) -> i64 {
            0
        }
        fn wheel(&self, keys: &Vec<i64>) -> Vec<f64> {
            unit().wheel(keys)
        }
        fn chance(&self) -> f64 {
            self.0
        }
        fn add(&self, left: &f64, right: &f64) -> f64 {
            left + right
        }
        fn less(&self, left: &f64, right: &f64) -> bool {
            left < right
        }
    }
    let keys = vec![key(4.0), key(2.0), key(1.0), key(1.0)];
    assert_eq!(unit().wheel(&keys), vec![0.5, 0.25, 0.125, 0.125]);
    for (chance, pick) in [
        (0.0, 0),
        (0.25, 0),
        (0.499999, 0),
        (0.5, 1),
        (0.500001, 1),
        (0.75, 2),
        (0.8, 2),
        (0.875, 3),
        (0.9, 3),
        (0.999, 3),
        (1.0, 3),
        (7.0, 3),
        (f64::NAN, 3),
    ] {
        assert_eq!(ant_colony::numerics::spin(&Fixed(chance), &keys), pick, "{}", chance);
    }
    assert_eq!(ant_colony::numerics::spin(&Fixed(0.3), &vec![key(9.0)]), 0);
    assert_eq!(ant_colony::numerics::spin(&Fixed(0.3), &vec![]), 0);
}

#[test]
fn the_colony_adds_up_its_ants() {
    let mut settings = config(Selection::Greedy);
    settings.returns = true;
    settings.decision = 2;
    let grid = vec![
        PointInfo::Empty('a', 0, 0),
        PointInfo::Empty('b', 2, 0),
        PointInfo::Food('c', 4, 0, 9),
    ];
    let mut world = World::new(grid, &settings, 0.0).unwrap();
    let mut hill = AntHill::new(&world, 3);
    assert_eq!(hill.get_number_of_ants(), 3);
    assert_eq!(hill.get_average_route_length(), Average { total: 3, count: 3 });
    assert_eq!(hill.get_average_routes_count(), Average { total: 0, count: 3 });
    assert_eq!(hill.action(&mut world, &unit()), Ok(()));
    assert_eq!(hill.get_average_route_length(), Average { total: 6, count: 3 });
    assert_eq!(hill.get_satiated_ants_count(), 0);
    assert!(!hill.has_all_ants_satiated());
    assert_eq!(hill.action(&mut world, &unit()), Ok(()));
    assert_eq!(hill.get_average_route_length(), Average { total: 3, count: 3 });
    assert_eq!(hill.get_average_routes_count(), Average { total: 3, count: 3 });
    assert_eq!(hill.get_satiated_ants_count(), 0);
    assert_eq!(world.get_pheromones_per_point(), vec![0.0, 3.0, 3.0]);
    assert_eq!(hill.action(&mut world, &unit()), Ok(()));
    assert_eq!(hill.get_ants()[2].get_route(), &vec!['a', 'b']);
    assert_eq!(hill.get_average_routes_count(), Average { total: 3, count: 3 });
    assert_eq!(hill.get_average_route_length(), Average { total: 6, count: 3 });
    hill.reset();
    assert_eq!(hill.get_average_routes_count(), Average { total: 0, count: 3 });
    assert_eq!(hill.get_ants()[0].get_route(), &vec!['a']);
}

#[test]
fn totals_of_records_of_different_length() {
    let short: Stats<f64> = Stats {
        completed: true,
        pheromone_strengths: vec![],
        average_route_len: Average { total: 0, count: 0 },
        ants_per_phase: vec![2],
        average_returns: Average { total: 0, count: 0 },
    };
    let long: Stats<f64> = Stats {
        completed: false,
        pheromone_strengths: vec![],
        average_route_len: Average { total: 0, count: 0 },
        ants_per_phase: vec![1, 4, 6],
        average_returns: Average { total: 0, count: 0 },
    };
    let totals = total_stats(&vec![short, long.clone(), long], 3);
    assert_eq!(totals.trials, 3);
    assert_eq!(totals.completed, 1);
    assert_eq!(totals.ants_per_phase, vec![4, 8, 12]);
}
