use ant_colony::consts::bias::MINUTE;
use ant_colony::numerics::Numerics;
use ant_colony::ranking::rank;
use ant_colony::tech::{
    Config, Dispersion, GraphInvariantViolation, Magnitude, Metric, PointInfo, Preference,
    Selection, SelectionError,
};
use ant_colony::utils::distance::Length;
use ant_colony::utils::{Auxil, Point};
use ant_colony::world::{candidate, contains, World};

/// Pheromone counted in whole deposits, and keys that are easy to foresee.
/// The wheel has equal shares and stops on the share `wheel`; where there
/// are fewer keys than that, it has no shares at all.
struct Counted {
    wheel: usize,
}

fn near(distance: Length) -> i64 {
    match distance {
        Length::Whole(n) => i64::MAX - n as i64,
        Length::Root(n) => i64::MAX - n as i64,
    }
}

impl Numerics<i32> for Counted {
    fn deposit(&self, level: &i32) -> i32 {
        level + 1
    }

    fn linear(&self, level: &i32) -> i32 {
        level - 2
    }

    fn exponential(&self, level: &i32) -> i32 {
        level / 2
    }

    fn relative(&self, _level: &i32) -> i32 {
        0
    }

    fn is_negative(&self, level: &i32) -> bool {
        *level < 0
    }

    fn distance(&self, distance: Length) -> i64 {
        near(distance)
    }

    fn pheromone(&self, level: &i32) -> i64 {
        MINUTE + *level as i64
    }

    fn food(&self, food: u32) -> i64 {
        MINUTE + food as i64
    }

    fn phero_dist(&self, _level: &i32, distance: Length) -> i64 {
        near(distance)
    }

    fn food_dist(&self, _food: u32, distance: Length) -> i64 {
        near(distance)
    }

    fn phero_food(&self, level: &i32, food: u32) -> i64 {
        MINUTE + *level as i64 + food as i64
    }

    fn phero_food_dist(&self, _level: &i32, _food: u32, distance: Length) -> i64 {
        near(distance)
    }

    fn wheel(&self, keys: &Vec<i64>) -> Vec<i32> {
        if self.wheel > keys.len() {
            Vec::new()
        } else {
            vec![1; keys.len()]
        }
    }

    fn chance(&self) -> i32 {
        self.wheel as i32
    }

    fn add(&self, left: &i32, right: &i32) -> i32 {
        left + right
    }

    fn less(&self, left: &i32, right: &i32) -> bool {
        left < right
    }
}

fn config(select: Selection, decision: usize) -> Config {
    Config {
        cycles: 1,
        ants: 1,
        pheromone: Magnitude::One,
        decision,
        rate: 4,
        returns: false,
        select,
        preference: Preference::Distance,
        metric: Metric::Taxicab,
        dispersion: Some(Dispersion::Linear),
        factor: Magnitude::One,
        seed: None,
    }
}

fn line() -> Vec<PointInfo> {
    vec![
        PointInfo::Empty('a', 0, 0),
        PointInfo::Empty('b', 1, 0),
        PointInfo::Food('c', 3, 0, 6),
        PointInfo::Food('d', 7, 0, 1),
    ]
}

fn world(select: Selection, decision: usize) -> World<i32> {
    World::new(line(), &config(select, decision), 0).unwrap()
}

#[test]
fn a_graph_is_built_as_declared() {
    let world = world(Selection::Greedy, 2);
    assert_eq!(world.get_anthill(), 'a');
    assert_eq!(world.get_number_of_points(), 4);
    assert!(world.do_ants_consume());
    assert!(!world.do_ants_return());
    assert_eq!(world.get_config(), &config(Selection::Greedy, 2));
    assert_eq!(world.get_pheromones_per_point(), vec![0, 0, 0, 0]);
    assert_eq!(world.get_points()[2], Point { id: 'c', x: 3, y: 0, food: 6, initial_food: 6 });
    assert_eq!(world.locate('c'), Some(2));
    assert_eq!(world.locate('z'), None);
    assert!(world.has_foodsource());
    assert!(world.is_foodsource(&'c') && world.is_foodsource(&'d'));
    assert!(!world.is_foodsource(&'a') && !world.is_foodsource(&'z'));
}

#[test]
fn a_graph_needs_a_sound_grid() {
    let settings = config(Selection::Greedy, 2);
    assert!(World::new(vec![], &settings, 0i32).is_none());
    assert!(World::new(vec![PointInfo::Empty('a', 0, 0)], &settings, 0i32).is_none());
    let twice = vec![PointInfo::Empty('a', 0, 0), PointInfo::Food('a', 1, 0, 1)];
    assert!(World::new(twice, &settings, 0i32).is_none());
    assert!(World::new(line(), &config(Selection::Greedy, 0), 0i32).is_none());
    assert!(World::new(line(), &config(Selection::Greedy, 5), 0i32).is_none());
    assert!(World::new(line(), &config(Selection::Greedy, 4), 0i32).is_some());
}

#[test]
fn food_is_set_and_eaten_and_never_below_nothing() {
    let mut world = world(Selection::Greedy, 2);
    assert_eq!(world.consume_foodsource('c'), Ok(()));
    assert_eq!(world.get_points()[2].food, 2);
    assert!(world.is_foodsource(&'c'));
    assert_eq!(world.consume_foodsource('c'), Ok(()));
    assert_eq!(world.get_points()[2].food, 0);
    assert!(!world.is_foodsource(&'c'));
    assert_eq!(world.consume_foodsource('c'), Ok(()));
    assert_eq!(world.get_points()[2].food, 0);
    assert_eq!(world.consume_foodsource('z'), Err(GraphInvariantViolation::UnknownPoint));
    assert_eq!(world.set_foodsource('b', 9), Ok(()));
    assert!(world.is_foodsource(&'b'));
    assert_eq!(world.set_foodsource('b', 0), Ok(()));
    assert!(!world.is_foodsource(&'b'));
    assert_eq!(world.set_foodsource('z', 9), Err(GraphInvariantViolation::UnknownPoint));
    assert_eq!(world.get_points()[3].food, 1);
    world.reset();
    let food: Vec<u32> = world.get_points().iter().map(|p| p.food).collect();
    assert_eq!(food, vec![0, 0, 6, 1]);
}

#[test]
fn a_trail_covers_the_route_but_the_anthill() {
    let mut world = world(Selection::Greedy, 2);
    let counted = Counted { wheel: 0 };
    world.cover_route(&vec!['a', 'b', 'c'], &counted);
    assert_eq!(world.get_pheromones_per_point(), vec![0, 1, 1, 0]);
    world.cover_route(&vec!['a', 'c', 'z', 'a'], &counted);
    world.cover_route(&vec!['c', 'd'], &counted);
    assert_eq!(world.get_pheromones_per_point(), vec![0, 1, 3, 1]);
    world.disperse_pheromons(&counted);
    assert_eq!(world.get_pheromones_per_point(), vec![0, 0, 1, 0]);
    world.reset();
    assert_eq!(world.get_pheromones_per_point(), vec![0, 0, 0, 0]);
}

#[test]
fn each_way_of_decay_asks_its_own_formula() {
    let counted = Counted { wheel: 0 };
    for (method, expected) in [
        (Dispersion::Linear, vec![0, 0, 1, 0]),
        (Dispersion::Exponential, vec![0, 0, 1, 0]),
        (Dispersion::Relative, vec![0, 0, 0, 0]),
    ] {
        let mut settings = config(Selection::Greedy, 2);
        settings.dispersion = Some(method);
        let mut world: World<i32> = World::new(line(), &settings, 0).unwrap();
        world.cover_route(&vec!['b', 'c'], &counted);
        world.cover_route(&vec!['c'], &counted);
        world.cover_route(&vec!['c'], &counted);
        assert_eq!(world.get_pheromones_per_point(), vec![0, 1, 3, 0]);
        world.disperse_pheromons(&counted);
        assert_eq!(world.get_pheromones_per_point(), expected);
    }
    assert_eq!(ant_colony::numerics::disperse(&counted, Dispersion::Linear, &7), 5);
    assert_eq!(ant_colony::numerics::disperse(&counted, Dispersion::Exponential, &7), 3);
    assert_eq!(ant_colony::numerics::disperse(&counted, Dispersion::Relative, &7), 0);
}

#[test]
fn without_a_way_of_decay_nothing_decays() {
    let mut settings = config(Selection::Greedy, 2);
    settings.dispersion = None;
    settings.factor = Magnitude::Unset;
    let mut world: World<i32> = World::new(line(), &settings, 0).unwrap();
    let counted = Counted { wheel: 0 };
    world.cover_route(&vec!['a', 'b'], &counted);
    world.disperse_pheromons(&counted);
    assert_eq!(world.get_pheromones_per_point(), vec![0, 1, 0, 0]);
}

#[test]
fn seen_points_get_the_least_key() {
    let world = world(Selection::Greedy, 2);
    let counted = Counted { wheel: 0 };
    let auxils = world.appraise(&vec!['a', 'b'], 1, &counted);
    assert_eq!(
        auxils,
        vec![
            Auxil::new('a', MINUTE),
            Auxil::new('b', MINUTE),
            Auxil::new('c', i64::MAX - 2),
            Auxil::new('d', i64::MAX - 6),
        ]
    );
    let on_food = world.appraise(&vec!['a', 'c'], 2, &counted);
    assert_eq!(
        on_food,
        vec![
            Auxil::new('a', i64::MAX - 3),
            Auxil::new('b', i64::MAX - 2),
            Auxil::new('c', i64::MAX),
            Auxil::new('d', i64::MAX - 4),
        ]
    );
}

#[test]
fn candidates_are_ranked_by_falling_key_then_by_declaration() {
    let auxils = vec![
        Auxil::new('a', 5),
        Auxil::new('b', 9),
        Auxil::new('c', 5),
        Auxil::new('d', -3),
        Auxil::new('e', 9),
        Auxil::new('f', i64::MAX),
        Auxil::new('g', i64::MIN),
    ];
    assert_eq!(rank(&auxils), vec![5, 1, 4, 0, 2, 3, 6]);
    assert_eq!(rank(&vec![]), Vec::<usize>::new());
    assert_eq!(rank(&vec![Auxil::new('x', 0)]), vec![0]);
}

#[test]
fn a_draw_counts_if_it_is_in_range_and_new() {
    let auxils = vec![Auxil::new('a', 1), Auxil::new('b', 3), Auxil::new('c', 2)];
    let order = rank(&auxils);
    let visited = vec!['a', 'c'];
    assert_eq!(candidate(&auxils, &order, &visited, 2, 0), Some('b'));
    assert_eq!(candidate(&auxils, &order, &visited, 2, 1), None);
    assert_eq!(candidate(&auxils, &order, &visited, 2, 2), None);
    assert_eq!(candidate(&auxils, &order, &vec![], 3, 2), Some('a'));
    assert_eq!(candidate(&auxils, &order, &vec![], 9, 3), None);
    assert!(contains(&visited, 'c'));
    assert!(!contains(&visited, 'b'));
}

#[test]
fn greedy_selection_takes_the_best_or_is_stuck() {
    let world = world(Selection::Greedy, 2);
    let counted = Counted { wheel: 0 };
    assert_eq!(world.get_new_position(&vec!['a'], &counted), Ok('b'));
    assert_eq!(world.get_new_position(&vec!['a', 'b'], &counted), Ok('c'));
    assert_eq!(
        world.get_new_position(&vec!['a', 'b', 'c'], &counted),
        Err(SelectionError::StuckSelection)
    );
    let best = vec![Auxil::new('a', 1), Auxil::new('b', 3), Auxil::new('c', 2), Auxil::new('d', 0)];
    let order = rank(&best);
    assert_eq!(world.select_position(&best, &order, &vec!['a'], &counted), Ok('b'));
    assert_eq!(
        world.select_position(&best, &order, &vec!['a', 'b'], &counted),
        Err(SelectionError::StuckSelection)
    );
}

#[test]
fn a_position_outside_the_graph_is_a_violation() {
    let world = world(Selection::Greedy, 2);
    let counted = Counted { wheel: 0 };
    let unknown = Err(SelectionError::GraphInvariantViolation(GraphInvariantViolation::UnknownPoint));
    assert_eq!(world.get_new_position(&vec!['a', 'z'], &counted), unknown);
    assert_eq!(world.get_new_position(&vec![], &counted), unknown);
}

#[test]
fn the_wheel_is_believed_only_in_range() {
    let best = vec![Auxil::new('a', 1), Auxil::new('b', 3), Auxil::new('c', 2), Auxil::new('d', 0)];
    let order = rank(&best);
    let roulette = world(Selection::Roulette, 3);
    assert_eq!(roulette.select_position(&best, &order, &vec![], &Counted { wheel: 1 }), Ok('c'));
    assert_eq!(roulette.select_position(&best, &order, &vec![], &Counted { wheel: 2 }), Ok('a'));
    assert_eq!(roulette.select_position(&best, &order, &vec![], &Counted { wheel: 3 }), Ok('a'));
    assert_eq!(
        roulette.select_position(&best, &order, &vec![], &Counted { wheel: 4 }),
        Err(SelectionError::StuckSelection)
    );
    assert_eq!(
        roulette.select_position(&best, &order, &vec!['c'], &Counted { wheel: 1 }),
        Err(SelectionError::StuckSelection)
    );
    assert_eq!(roulette.select_roulette(&vec![3, 2, 1], &Counted { wheel: 7 }), 3);
    assert_eq!(roulette.select_roulette(&vec![3, 2, 1], &Counted { wheel: 1 }), 1);
    assert_eq!(roulette.select_roulette(&vec![3, 2, 1], &Counted { wheel: 3 }), 2);
}

#[test]
fn random_selection_finds_the_one_new_candidate() {
    let best = vec![Auxil::new('a', 1), Auxil::new('b', 3), Auxil::new('c', 2), Auxil::new('d', 0)];
    let order = rank(&best);
    let random = world(Selection::Random, 3);
    let counted = Counted { wheel: 0 };
    for _ in 0..50 {
        assert_eq!(random.select_position(&best, &order, &vec!['b', 'c'], &counted), Ok('a'));
        let any = random.select_position(&best, &order, &vec![], &counted).unwrap();
        assert!(any == 'a' || any == 'b' || any == 'c');
    }
    assert_eq!(
        random.select_position(&best, &order, &vec!['a', 'b', 'c'], &counted),
        Err(SelectionError::StuckSelection)
    );
}
